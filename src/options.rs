//! The option store: dotted keys, a fixed schema of typed options, and the
//! values that a book sets over their defaults.
use vstd::prelude::*;
use crate::error::{Error, ErrorKind};
use crate::text::{chars_of, same_chars};
use crate::yaml::{YamlValue, ScalarModel, entries_view, load_yaml, YamlLoad, YamlNode, LoadModel, yaml_load};

verus! {

/// The type of an option.
#[derive(Clone, Copy, Debug, PartialEq, Eq, Structural)]
pub enum OptKind {
    Str,
    Bool,
    Int,
    Path,
}

/// A value held by an option.
#[derive(Clone, Debug)]
pub enum OptValue {
    Str(String),
    Bool(bool),
    Int(i64),
    Path(String),
}

pub enum OptModel {
    Str(Seq<char>),
    Bool(bool),
    Int(int),
    Path(Seq<char>),
}

impl View for OptValue {
    type V = OptModel;

    open spec fn view(&self) -> OptModel {
        match self {
            OptValue::Str(s) => OptModel::Str(s@),
            OptValue::Bool(b) => OptModel::Bool(*b),
            OptValue::Int(i) => OptModel::Int(*i as int),
            OptValue::Path(s) => OptModel::Path(s@),
        }
    }
}

/// The metadata options, offered to templates.
pub open spec fn is_metadata(k: Seq<char>) -> bool {
    k == "author"@ || k == "title"@ || k == "lang"@ || k == "subject"@ || k == "description"@
        || k == "license"@ || k == "version"@ || k == "date"@
}

/// The options whose value is a path to a template that overrides a builtin one.
pub open spec fn is_template_key(k: Seq<char>) -> bool {
    k == "epub.css"@ || k == "epub.chapter.xhtml"@ || k == "html.css"@ || k == "html.css.colours"@
        || k == "html.css.print"@ || k == "html_single.html"@ || k == "html_single.js"@ || k
        == "html.js"@ || k == "html_dir.index.html"@ || k == "html_dir.chapter.html"@ || k
        == "html.highlight.js"@ || k == "html.highlight.css"@ || k == "tex.template"@
}

/// The options whose value is the path of an output file.
pub open spec fn is_output_key(k: Seq<char>) -> bool {
    k == "output.html"@ || k == "output.html_dir"@ || k == "output.tex"@ || k == "output.pdf"@ || k
        == "output.epub"@ || k == "output.odt"@ || k == "output.proofread.html"@ || k
        == "output.proofread.html_dir"@ || k == "output.proofread.pdf"@
}

/// The schema: the type of each recognised key.
pub open spec fn kind_of(k: Seq<char>) -> Option<OptKind> {
    if is_metadata(k) || k == "tex.class"@ || k == "rendering.chapter_template"@ {
        Some(OptKind::Str)
    } else if k == "input.yaml_blocks"@ || k == "input.clean"@ || k == "input.clean.smart_quotes"@
        || k == "input.clean.ligature.dashes"@ || k == "input.clean.ligature.guillemets"@ || k
        == "proofread"@ || k == "proofread.languagetool"@ {
        Some(OptKind::Bool)
    } else if k == "proofread.languagetool.port"@ || k == "epub.version"@ {
        Some(OptKind::Int)
    } else if is_output_key(k) || is_template_key(k) || k == "resources.base_path"@ || k
        == "resources.base_path.images"@ || k == "resources.base_path.links"@ {
        Some(OptKind::Path)
    } else {
        None
    }
}

/// The default value of a key, for the keys that have one.
pub open spec fn default_of(k: Seq<char>) -> Option<OptModel> {
    if k == "author"@ {
        Some(OptModel::Str("Anonymous"@))
    } else if k == "title"@ {
        Some(OptModel::Str("Untitled"@))
    } else if k == "lang"@ {
        Some(OptModel::Str("en"@))
    } else if k == "tex.class"@ {
        Some(OptModel::Str("book"@))
    } else if k == "rendering.chapter_template"@ {
        Some(OptModel::Str("{{{number}}}. {{{chapter_title}}}"@))
    } else if k == "input.yaml_blocks"@ || k == "input.clean.ligature.dashes"@ || k
        == "input.clean.ligature.guillemets"@ || k == "proofread"@ || k
        == "proofread.languagetool"@ {
        Some(OptModel::Bool(false))
    } else if k == "input.clean"@ || k == "input.clean.smart_quotes"@ {
        Some(OptModel::Bool(true))
    } else if k == "proofread.languagetool.port"@ {
        Some(OptModel::Int(8081))
    } else if k == "epub.version"@ {
        Some(OptModel::Int(2))
    } else {
        None
    }
}

/// What setting key `k` to the YAML value `v` stores, if the schema accepts it.
pub open spec fn typed_value(k: Seq<char>, v: ScalarModel) -> Option<OptModel> {
    match (kind_of(k), v) {
        (Some(OptKind::Str), ScalarModel::Str(s)) => Some(OptModel::Str(s)),
        (Some(OptKind::Path), ScalarModel::Str(s)) => Some(OptModel::Path(s)),
        (Some(OptKind::Bool), ScalarModel::Bool(b)) => Some(OptModel::Bool(b)),
        (Some(OptKind::Int), ScalarModel::Int(i)) => Some(OptModel::Int(i)),
        _ => None,
    }
}

/// Setting a YAML key to a YAML value: `None` where the schema refuses it.
pub open spec fn set_spec(m: Map<Seq<char>, OptModel>, key: ScalarModel, v: ScalarModel) -> Option<
    Map<Seq<char>, OptModel>,
> {
    match key {
        ScalarModel::Str(k) => match typed_value(k, v) {
            Some(t) => Some(m.insert(k, t)),
            None => None,
        },
        _ => None,
    }
}

/// Applying the entries of a mapping in order: the options after the last
/// accepted entry, and whether every entry was accepted.
pub open spec fn apply_entries(m: Map<Seq<char>, OptModel>, es: Seq<(ScalarModel, ScalarModel)>) -> (
    Map<Seq<char>, OptModel>,
    bool,
)
    decreases es.len(),
{
    if es.len() == 0 {
        (m, true)
    } else {
        match set_spec(m, es[0].0, es[0].1) {
            Some(m2) => apply_entries(m2, es.drop_first()),
            None => (m, false),
        }
    }
}

/// The value of `k` in options `m`: the one set, else the default.
pub open spec fn value_of(m: Map<Seq<char>, OptModel>, k: Seq<char>) -> Option<OptModel> {
    if m.contains_key(k) {
        Some(m[k])
    } else {
        default_of(k)
    }
}

pub open spec fn str_of(m: Map<Seq<char>, OptModel>, k: Seq<char>) -> Option<Seq<char>> {
    match value_of(m, k) {
        Some(OptModel::Str(s)) => Some(s),
        _ => None,
    }
}

pub open spec fn bool_of(m: Map<Seq<char>, OptModel>, k: Seq<char>) -> Option<bool> {
    match value_of(m, k) {
        Some(OptModel::Bool(b)) => Some(b),
        _ => None,
    }
}

pub open spec fn int_of(m: Map<Seq<char>, OptModel>, k: Seq<char>) -> Option<int> {
    match value_of(m, k) {
        Some(OptModel::Int(i)) => Some(i),
        _ => None,
    }
}

pub open spec fn path_of(m: Map<Seq<char>, OptModel>, k: Seq<char>) -> Option<Seq<char>> {
    match value_of(m, k) {
        Some(OptModel::Path(s)) => Some(s),
        _ => None,
    }
}

/// The map built by applying the assignments of `s` in order.
pub open spec fn log_map(s: Seq<(Seq<char>, OptModel)>) -> Map<Seq<char>, OptModel>
    decreases s.len(),
{
    if s.len() == 0 {
        Map::empty()
    } else {
        log_map(s.drop_last()).insert(s.last().0, s.last().1)
    }
}

fn key_is(k: &Vec<char>, lit: &str) -> (r: bool)
    ensures
        r == (k@ == lit@),
{
    let l = chars_of(lit);
    same_chars(k, &l)
}

/// The type of `k` in the schema.
pub fn key_kind(k: &Vec<char>) -> (r: Option<OptKind>)
    ensures
        r == kind_of(k@),
{
    if key_is(k, "author") || key_is(k, "title") || key_is(k, "lang") || key_is(k, "subject")
        || key_is(k, "description") || key_is(k, "license") || key_is(k, "version") || key_is(
        k,
        "date",
    ) || key_is(k, "tex.class") || key_is(k, "rendering.chapter_template") {
        Some(OptKind::Str)
    } else if key_is(k, "input.yaml_blocks") || key_is(k, "input.clean") || key_is(
        k,
        "input.clean.smart_quotes",
    ) || key_is(k, "input.clean.ligature.dashes") || key_is(k, "input.clean.ligature.guillemets")
        || key_is(k, "proofread") || key_is(k, "proofread.languagetool") {
        Some(OptKind::Bool)
    } else if key_is(k, "proofread.languagetool.port") || key_is(k, "epub.version") {
        Some(OptKind::Int)
    } else if key_is(k, "output.html") || key_is(k, "output.html_dir") || key_is(k, "output.tex")
        || key_is(k, "output.pdf") || key_is(k, "output.epub") || key_is(k, "output.odt") || key_is(
        k,
        "output.proofread.html",
    ) || key_is(k, "output.proofread.html_dir") || key_is(k, "output.proofread.pdf") || key_is(
        k,
        "epub.css",
    ) || key_is(k, "epub.chapter.xhtml") || key_is(k, "html.css") || key_is(k, "html.css.colours")
        || key_is(k, "html.css.print") || key_is(k, "html_single.html") || key_is(
        k,
        "html_single.js",
    ) || key_is(k, "html.js") || key_is(k, "html_dir.index.html") || key_is(
        k,
        "html_dir.chapter.html",
    ) || key_is(k, "html.highlight.js") || key_is(k, "html.highlight.css") || key_is(
        k,
        "tex.template",
    ) || key_is(k, "resources.base_path") || key_is(k, "resources.base_path.images") || key_is(
        k,
        "resources.base_path.links",
    ) {
        Some(OptKind::Path)
    } else {
        None
    }
}

/// Setting key `k` from the text `s`, read as a single YAML value.
pub open spec fn set_text_spec(m: Map<Seq<char>, OptModel>, k: Seq<char>, s: Seq<char>) -> Option<
    Map<Seq<char>, OptModel>,
> {
    match yaml_load(s) {
        LoadModel::Docs(d) => if d.len() == 1 && d[0] is Value {
            set_spec(m, ScalarModel::Str(k), d[0]->Value_0)
        } else {
            None
        },
        LoadModel::Invalid => None,
    }
}

impl OptValue {
    /// A copy of the value.
    pub fn copy(&self) -> (r: OptValue)
        ensures
            r@ == self@,
    {
        match self {
            OptValue::Str(s) => OptValue::Str(s.clone()),
            OptValue::Bool(b) => OptValue::Bool(*b),
            OptValue::Int(i) => OptValue::Int(*i),
            OptValue::Path(s) => OptValue::Path(s.clone()),
        }
    }
}

/// The default value of `k`, computed.
pub fn default_value(k: &Vec<char>) -> (r: Option<OptValue>)
    ensures
        match (r, default_of(k@)) {
            (Some(v), Some(w)) => v@ == w,
            (None, None) => true,
            _ => false,
        },
{
    if key_is(k, "author") {
        Some(OptValue::Str("Anonymous".to_string()))
    } else if key_is(k, "title") {
        Some(OptValue::Str("Untitled".to_string()))
    } else if key_is(k, "lang") {
        Some(OptValue::Str("en".to_string()))
    } else if key_is(k, "tex.class") {
        Some(OptValue::Str("book".to_string()))
    } else if key_is(k, "rendering.chapter_template") {
        Some(OptValue::Str("{{{number}}}. {{{chapter_title}}}".to_string()))
    } else if key_is(k, "input.yaml_blocks") || key_is(k, "input.clean.ligature.dashes") || key_is(
        k,
        "input.clean.ligature.guillemets",
    ) || key_is(k, "proofread") || key_is(k, "proofread.languagetool") {
        Some(OptValue::Bool(false))
    } else if key_is(k, "input.clean") || key_is(k, "input.clean.smart_quotes") {
        Some(OptValue::Bool(true))
    } else if key_is(k, "proofread.languagetool.port") {
        Some(OptValue::Int(8081))
    } else if key_is(k, "epub.version") {
        Some(OptValue::Int(2))
    } else {
        None
    }
}

/// Typed, schema-checked options of a book.
///
/// The values set are kept as a log of assignments; the last assignment of
/// a key wins.
pub struct BookOptions {
    log: Vec<(String, OptValue)>,
}

impl BookOptions {
    pub closed spec fn log_view(&self) -> Seq<(Seq<char>, OptModel)> {
        Seq::new(self.log@.len(), |i: int| (self.log@[i].0@, self.log@[i].1@))
    }

    /// The values set, by key.
    pub closed spec fn view(&self) -> Map<Seq<char>, OptModel> {
        log_map(self.log_view())
    }

    /// Options with nothing set: every key has its default.
    pub fn new() -> (r: BookOptions)
        ensures
            r.view() == Map::<Seq<char>, OptModel>::empty(),
    {
        let r = BookOptions { log: Vec::new() };
        assert(r.log_view() =~= Seq::<(Seq<char>, OptModel)>::empty());
        r
    }

    fn push(&mut self, k: String, v: OptValue)
        ensures
            final(self).view() == old(self).view().insert(k@, v@),
    {
        let ghost before = self.log_view();
        self.log.push((k, v));
        assert(self.log_view().drop_last() =~= before);
    }

    /// The value set for `k`, if any.
    fn find(&self, k: &Vec<char>) -> (r: Option<OptValue>)
        ensures
            match r {
                Some(v) => self.view().contains_key(k@) && self.view()[k@] == v@,
                None => !self.view().contains_key(k@),
            },
    {
        let mut i: usize = self.log.len();
        assert(self.log_view().take(i as int) =~= self.log_view());
        while i > 0
            invariant
                i <= self.log@.len(),
                log_map(self.log_view().take(i as int)).contains_key(k@) == self.view().contains_key(k@),
                log_map(self.log_view().take(i as int)).contains_key(k@) ==> log_map(self.log_view().take(i as int))[k@] == self.view()[k@],
            decreases i,
        {
            let ghost t = self.log_view().take(i as int);
            assert(t.drop_last() =~= self.log_view().take(i - 1));
            let key = chars_of(self.log[i - 1].0.as_str());
            if same_chars(&key, k) {
                return Some(self.log[i - 1].1.copy());
            }
            i = i - 1;
        }
        None
    }

    /// The value of `k`: the one set, else its default.
    pub fn get(&self, key: &str) -> (r: Option<OptValue>)
        ensures
            match (r, value_of(self.view(), key@)) {
                (Some(v), Some(w)) => v@ == w,
                (None, None) => true,
                _ => false,
            },
    {
        let k = chars_of(key);
        match self.find(&k) {
            Some(v) => Some(v),
            None => default_value(&k),
        }
    }

    /// The value of a string option.
    pub fn get_str(&self, key: &str) -> (r: Option<String>)
        ensures
            match (r, str_of(self.view(), key@)) {
                (Some(v), Some(w)) => v@ == w,
                (None, None) => true,
                _ => false,
            },
    {
        match self.get(key) {
            Some(OptValue::Str(s)) => Some(s),
            _ => None,
        }
    }

    /// The value of a boolean option.
    pub fn get_bool(&self, key: &str) -> (r: Option<bool>)
        ensures
            r == bool_of(self.view(), key@),
    {
        match self.get(key) {
            Some(OptValue::Bool(b)) => Some(b),
            _ => None,
        }
    }

    /// The value of an integer option.
    pub fn get_int(&self, key: &str) -> (r: Option<i64>)
        ensures
            match (r, int_of(self.view(), key@)) {
                (Some(v), Some(w)) => v == w,
                (None, None) => true,
                _ => false,
            },
    {
        match self.get(key) {
            Some(OptValue::Int(i)) => Some(i),
            _ => None,
        }
    }

    /// The value of a path option.
    pub fn get_path(&self, key: &str) -> (r: Option<String>)
        ensures
            match (r, path_of(self.view(), key@)) {
                (Some(v), Some(w)) => v@ == w,
                (None, None) => true,
                _ => false,
            },
    {
        match self.get(key) {
            Some(OptValue::Path(s)) => Some(s),
            _ => None,
        }
    }

    /// Sets an option from a YAML key and value; returns the value it had
    /// been set to before, if any.
    pub fn set_yaml(&mut self, key: &YamlValue, value: &YamlValue) -> (r: Result<
        Option<OptValue>,
        Error,
    >)
        ensures
            match set_spec(old(self).view(), key@, value@) {
                Some(m) => r is Ok && final(self).view() == m,
                None => r is Err && r->Err_0.kind == ErrorKind::BookOption && final(self).view()
                    == old(self).view(),
            },
            r is Ok ==> match (r->Ok_0, key@) {
                (Some(p), ScalarModel::Str(k)) => old(self).view().contains_key(k)
                    && old(self).view()[k] == p@,
                (None, ScalarModel::Str(k)) => !old(self).view().contains_key(k),
                _ => false,
            },
    {
        let k = match key {
            YamlValue::Str(k) => k,
            _ => {
                return Err(Error::new(ErrorKind::BookOption, None, "expected a string as key"));
            },
        };
        let kc = chars_of(k.as_str());
        let v = match (key_kind(&kc), value) {
            (Some(OptKind::Str), YamlValue::Str(s)) => OptValue::Str(s.clone()),
            (Some(OptKind::Path), YamlValue::Str(s)) => OptValue::Path(s.clone()),
            (Some(OptKind::Bool), YamlValue::Bool(b)) => OptValue::Bool(*b),
            (Some(OptKind::Int), YamlValue::Int(i)) => OptValue::Int(*i),
            (None, _) => {
                return Err(Error::new(ErrorKind::BookOption, None, "unrecognised option"));
            },
            _ => {
                return Err(Error::new(ErrorKind::BookOption, None, "wrong type of value for option"));
            },
        };
        let previous = self.find(&kc);
        self.push(k.clone(), v);
        Ok(previous)
    }

    /// Sets an option from text, read as a single YAML value.
    pub fn set(&mut self, key: &str, value: &str) -> (r: Result<Option<OptValue>, Error>)
        ensures
            match set_text_spec(old(self).view(), key@, value@) {
                Some(m) => r is Ok && final(self).view() == m,
                None => r is Err && r->Err_0.kind == ErrorKind::BookOption && final(self).view()
                    == old(self).view(),
            },
    {
        match load_yaml(value) {
            YamlLoad::Invalid => Err(Error::new(ErrorKind::BookOption, None, "value is not valid YAML")),
            YamlLoad::Docs(mut d) => {
                if d.len() != 1 {
                    return Err(Error::new(ErrorKind::BookOption, None, "value must be one YAML value"));
                }
                match d.pop() {
                    Some(YamlNode::Value(v)) => self.set_yaml(&YamlValue::Str(key.to_string()), &v),
                    _ => Err(Error::new(ErrorKind::BookOption, None, "value must be a scalar")),
                }
            },
        }
    }

    /// Applies the entries of a YAML mapping in order, stopping at the
    /// first one that the schema refuses.
    pub fn set_entries(&mut self, es: &Vec<(YamlValue, YamlValue)>) -> (r: Result<(), Error>)
        ensures
            final(self).view() == apply_entries(old(self).view(), entries_view(es@)).0,
            r is Ok == apply_entries(old(self).view(), entries_view(es@)).1,
            r is Err ==> r->Err_0.kind == ErrorKind::BookOption,
    {
        let ghost all = entries_view(es@);
        let mut i: usize = 0;
        assert(all.skip(0) =~= all);
        while i < es.len()
            invariant
                i <= es@.len(),
                all == entries_view(es@),
                apply_entries(old(self).view(), all) == apply_entries(self.view(), all.skip(i as int)),
            decreases es@.len() - i,
        {
            assert(all.skip(i as int).drop_first() =~= all.skip(i + 1));
            assert(all.skip(i as int)[0] == all[i as int]);
            match self.set_yaml(&es[i].0, &es[i].1) {
                Ok(_) => {},
                Err(e) => {
                    return Err(e);
                },
            }
            i = i + 1;
        }
        assert(all.skip(i as int) =~= Seq::<(ScalarModel, ScalarModel)>::empty());
        Ok(())
    }
}

} // verus!
