//! Templates: which builtin or user file a template key resolves to, and
//! the chapter-header template, compiled by mustache.
use vstd::prelude::*;
use crate::book::Book;
use crate::error::{Error, ErrorKind};
use crate::options::{OptModel, int_of, path_of, str_of};
use crate::text::{chars_of, string_of, is_ws, is_whitespace};

verus! {

/// The builtin templates.
#[derive(Clone, Copy, Debug, PartialEq, Eq, Structural)]
pub enum Builtin {
    EpubCss,
    EpubChapter,
    Epub3Chapter,
    HtmlCss,
    HtmlCssColours,
    HtmlCssPrint,
    HtmlSingleHtml,
    HtmlSingleJs,
    HtmlJs,
    HtmlDirIndex,
    HtmlDirChapter,
    HighlightJs,
    HighlightCss,
    TexTemplate,
}

/// Where the content of a template comes from.
#[derive(Clone, Debug)]
pub enum TemplateSource {
    /// A file that the user set.
    File(String),
    /// A template that comes with the library.
    Builtin(Builtin),
}

/// The builtin template of key `k`, which the user may override.
pub open spec fn fallback_of(m: Map<Seq<char>, OptModel>, k: Seq<char>) -> Result<Builtin, ErrorKind> {
    if k == "epub.css"@ {
        Ok(Builtin::EpubCss)
    } else if k == "epub.chapter.xhtml"@ {
        match int_of(m, "epub.version"@) {
            Some(v) => if v == 3 {
                Ok(Builtin::Epub3Chapter)
            } else {
                Ok(Builtin::EpubChapter)
            },
            None => Err(ErrorKind::BookOption),
        }
    } else if k == "html.css"@ {
        Ok(Builtin::HtmlCss)
    } else if k == "html.css.colours"@ {
        Ok(Builtin::HtmlCssColours)
    } else if k == "html.css.print"@ {
        Ok(Builtin::HtmlCssPrint)
    } else if k == "html_single.html"@ {
        Ok(Builtin::HtmlSingleHtml)
    } else if k == "html_single.js"@ {
        Ok(Builtin::HtmlSingleJs)
    } else if k == "html.js"@ {
        Ok(Builtin::HtmlJs)
    } else if k == "html_dir.index.html"@ {
        Ok(Builtin::HtmlDirIndex)
    } else if k == "html_dir.chapter.html"@ {
        Ok(Builtin::HtmlDirChapter)
    } else if k == "html.highlight.js"@ {
        Ok(Builtin::HighlightJs)
    } else if k == "html.highlight.css"@ {
        Ok(Builtin::HighlightCss)
    } else if k == "tex.template"@ {
        Ok(Builtin::TexTemplate)
    } else {
        Err(ErrorKind::ConfigParser)
    }
}

/// A compiled mustache template, carried as it is.
#[verifier::external_type_specification]
#[verifier::external_body]
pub struct ExTemplate(mustache::Template);

/// A character that may stand between `{{` and a tag's name.
pub open spec fn is_tag_lead(c: char) -> bool {
    is_ws(c) || c == '{' || c == '&'
}

/// The first index from `j` on whose character is not a tag lead.
pub open spec fn first_sig(s: Seq<char>, j: int) -> int
    decreases s.len() - j,
{
    if j < 0 || j >= s.len() || !is_tag_lead(s[j]) {
        j
    } else {
        first_sig(s, j + 1)
    }
}

/// A tag at `i` that is a partial (`>`), a change of delimiters (`=`), or
/// starts with `.` (the implicit name, which can name the whole data).
pub open spec fn bad_tag_at(s: Seq<char>, i: int) -> bool {
    &&& 0 <= i && i + 1 < s.len() && s[i] == '{' && s[i + 1] == '{'
    &&& {
        let j = first_sig(s, i + 2);
        0 <= j < s.len() && (s[j] == '.' || s[j] == '>' || s[j] == '=')
    }
}

/// A template that needs no file besides its text and whose tags only name
/// variables: mustache compiles it from its text alone and renders it over
/// string variables without fault.
///
/// This refuses three features of mustache: partials (`{{> name}}`, read
/// from files of the current directory), changes of delimiters
/// (`{{=<% %>=}}`), and tags whose name starts with `.` (`{{.}}`, also
/// inside a section). Chapter-header templates cannot use them.
pub open spec fn safe_template(s: Seq<char>) -> bool {
    forall|i: int| !#[trigger] bad_tag_at(s, i)
}

/// Whether `s` is a safe template.
pub fn is_safe_template(s: &str) -> (r: bool)
    ensures
        r == safe_template(s@),
{
    let c = chars_of(s);
    let mut i: usize = 0;
    while i < c.len() && c.len() - i > 1
        invariant
            c@ == s@,
            i <= c@.len(),
            forall|k: int| 0 <= k < i ==> !#[trigger] bad_tag_at(c@, k),
        decreases c@.len() - i,
    {
        if c[i] == '{' && c[i + 1] == '{' {
            let mut j: usize = i + 2;
            while j < c.len() && (is_whitespace(c[j]) || c[j] == '{' || c[j] == '&')
                invariant
                    i + 2 <= j <= c@.len(),
                    first_sig(c@, i + 2) == first_sig(c@, j as int),
                decreases c@.len() - j,
            {
                j = j + 1;
            }
            assert(first_sig(c@, j as int) == j);
            if j < c.len() && (c[j] == '.' || c[j] == '>' || c[j] == '=') {
                assert(bad_tag_at(c@, i as int));
                return false;
            }
        }
        i = i + 1;
    }
    assert forall|k: int| !#[trigger] bad_tag_at(c@, k) by {
        if 0 <= k < i {
        }
    }
    true
}

/// A compiled chapter-header template, with the text it was compiled from.
pub struct ChapterTemplate {
    source: String,
    compiled: mustache::Template,
}

impl ChapterTemplate {
    /// The text the template was compiled from.
    pub closed spec fn source_view(&self) -> Seq<char> {
        self.source@
    }
}

/// Whether mustache compiles the safe template `s`.
pub uninterp spec fn mustache_compiles(s: Seq<char>) -> bool;

/// What mustache renders the safe template `s` to over the string
/// variables `vars`, or `None` where it reports an error.
pub uninterp spec fn mustache_render(s: Seq<char>, vars: Seq<(Seq<char>, Seq<char>)>) -> Option<Seq<char>>;

/// Relies on `mustache::compile_str`: on a safe template it reads no file,
/// so whether it compiles depends on the text alone.
#[verifier::external_body]
fn compile_template(s: &str) -> (r: Option<ChapterTemplate>)
    requires
        safe_template(s@),
    ensures
        r is Some == mustache_compiles(s@),
        r matches Some(t) ==> t.source_view() == s@,
{
    match mustache::compile_str(s) {
        Ok(c) => Some(ChapterTemplate { source: s.to_string(), compiled: c }),
        Err(_) => None,
    }
}

/// Relies on `mustache::MapBuilder::insert_str` and
/// `mustache::Template::render_data_to_string`: a safe template over string
/// variables, inserted in order.
#[verifier::external_body]
fn render_template(t: &ChapterTemplate, vars: &Vec<(String, String)>) -> (r: Option<String>)
    requires
        safe_template(t.source_view()),
    ensures
        match r {
            Some(h) => mustache_render(t.source_view(), pairs_view(vars@)) == Some(h@),
            None => mustache_render(t.source_view(), pairs_view(vars@)) is None,
        },
{
    let mut b = mustache::MapBuilder::new();
    for (k, v) in vars.iter() {
        b = b.insert_str(k, v);
    }
    t.compiled.render_data_to_string(&b.build()).ok()
}

pub open spec fn pairs_view(v: Seq<(String, String)>) -> Seq<(Seq<char>, Seq<char>)> {
    Seq::new(v.len(), |i: int| (v[i].0@, v[i].1@))
}

/// The text a template reads as a true flag.
pub open spec fn flag() -> Seq<char> {
    "true"@
}

/// The character of the decimal digit `d`.
pub open spec fn digit_char(d: int) -> char {
    if d == 0 {
        '0'
    } else if d == 1 {
        '1'
    } else if d == 2 {
        '2'
    } else if d == 3 {
        '3'
    } else if d == 4 {
        '4'
    } else if d == 5 {
        '5'
    } else if d == 6 {
        '6'
    } else if d == 7 {
        '7'
    } else if d == 8 {
        '8'
    } else {
        '9'
    }
}

/// The decimal text of `n`, with a leading `'-'` when it is negative.
pub open spec fn decimal(n: int) -> Seq<char>
    decreases (if n < 0 { 1 - n } else { n }),
{
    if n < 0 {
        seq!['-'] + decimal(-n)
    } else if n < 10 {
        seq![digit_char(n)]
    } else {
        decimal(n / 10).push(digit_char(n % 10))
    }
}

fn digit(d: u64) -> (c: char)
    requires
        d < 10,
    ensures
        c == digit_char(d as int),
{
    if d == 0 {
        '0'
    } else if d == 1 {
        '1'
    } else if d == 2 {
        '2'
    } else if d == 3 {
        '3'
    } else if d == 4 {
        '4'
    } else if d == 5 {
        '5'
    } else if d == 6 {
        '6'
    } else if d == 7 {
        '7'
    } else if d == 8 {
        '8'
    } else {
        '9'
    }
}

fn natural_text(m: u64) -> (r: Vec<char>)
    ensures
        r@ == decimal(m as int),
    decreases m,
{
    if m < 10 {
        let mut r: Vec<char> = Vec::new();
        r.push(digit(m));
        r
    } else {
        let mut r = natural_text(m / 10);
        r.push(digit(m % 10));
        r
    }
}

/// The decimal text of `n`.
pub fn number_text(n: i32) -> (r: String)
    ensures
        r@ == decimal(n as int),
{
    if n < 0 {
        let m: u64 = (0i64 - (n as i64)) as u64;
        let mut r: Vec<char> = Vec::new();
        r.push('-');
        let mut digits = natural_text(m);
        r.append(&mut digits);
        assert(r@ =~= seq!['-'] + decimal(-(n as int)));
        string_of(r.as_slice())
    } else {
        let r = natural_text(n as u64);
        string_of(r.as_slice())
    }
}

/// Compiles a safe mustache template; fails with a template error, with
/// `error_msg`, where the template is not safe or mustache refuses it.
/// A template that mustache would compile but that uses a partial, a change
/// of delimiters or a `.` tag is refused: see `safe_template`.
pub fn compile_str(template: &str, error_msg: &str) -> (r: Result<ChapterTemplate, Error>)
    ensures
        match r {
            Ok(t) => safe_template(template@) && mustache_compiles(template@) && t.source_view()
                == template@,
            Err(e) => e.kind == ErrorKind::Template && e.msg@ == error_msg@ && !(safe_template(
                template@,
            ) && mustache_compiles(template@)),
        },
{
    if !is_safe_template(template) {
        return Err(Error::new(ErrorKind::Template, None, error_msg));
    }
    match compile_template(template) {
        Some(t) => Ok(t),
        None => Err(Error::new(ErrorKind::Template, None, error_msg)),
    }
}

/// The chapter-header template of options `m` is safe and compiles.
pub open spec fn header_compiles(m: Map<Seq<char>, OptModel>) -> bool {
    match str_of(m, "rendering.chapter_template"@) {
        Some(t) => safe_template(t) && mustache_compiles(t),
        None => false,
    }
}

/// The template a chapter header is rendered with: the one kept, else the
/// option's, where that one compiles.
pub open spec fn header_source(b: Book) -> Option<Seq<char>> {
    if b.has_chapter_template() {
        Some(b.chapter_template_source())
    } else if header_compiles(b.opts()) {
        str_of(b.opts(), "rendering.chapter_template"@)
    } else {
        None
    }
}

/// The variables of a chapter header: the metadata variables, then the
/// title flag, the title and the number.
pub open spec fn header_vars_spec(md: Seq<(Seq<char>, Seq<char>)>, n: int, title: Seq<char>) -> Seq<
    (Seq<char>, Seq<char>),
> {
    md + (if title.len() > 0 {
        seq![("has_chapter_title"@, flag())]
    } else {
        Seq::empty()
    }) + seq![("chapter_title"@, title), ("number"@, decimal(n))]
}

/// The variables that rendering the metadata adds after the rendered
/// metadata: the library version, the language flag, the localized strings.
pub open spec fn tail_vars(lang: Seq<char>, table: Seq<(Seq<char>, Seq<char>)>) -> Seq<(Seq<char>, Seq<char>)> {
    seq![("crowbook_version"@, VERSION@), ("lang_"@ + lang, flag())] + Seq::new(
        table.len(),
        |j: int| ("loc_"@ + table[j].0, table[j].1),
    )
}

/// The version that templates see as `crowbook_version`.
pub const VERSION: &'static str = "0.1.0";

fn join_str(a: &str, b: &str) -> (r: String)
    ensures
        r@ == a@ + b@,
{
    let mut out = chars_of(a);
    let bc = chars_of(b);
    let ghost a0 = out@;
    let mut j: usize = 0;
    while j < bc.len()
        invariant
            j <= bc@.len(),
            out@ == a0 + bc@.take(j as int),
            a0 == a@,
        decreases bc@.len() - j,
    {
        out.push(bc[j]);
        j = j + 1;
        assert(bc@.take(j as int) =~= bc@.take(j - 1).push(bc@[j - 1]));
    }
    assert(bc@.take(j as int) =~= bc@);
    string_of(out.as_slice())
}

/// The metadata keys, in the order that templates receive them.
pub open spec fn metadata_keys() -> Seq<Seq<char>> {
    seq!["author"@, "title"@, "lang"@, "subject"@, "description"@, "license"@, "version"@, "date"@]
}

/// The metadata of options `m` that have a value, as `(key, value)`.
pub open spec fn metadata_of(m: Map<Seq<char>, OptModel>, keys: Seq<Seq<char>>) -> Seq<(Seq<char>, Seq<char>)>
    decreases keys.len(),
{
    if keys.len() == 0 {
        Seq::empty()
    } else {
        let rest = metadata_of(m, keys.drop_last());
        match str_of(m, keys.last()) {
            Some(v) => rest.push((keys.last(), v)),
            None => rest,
        }
    }
}

impl Book {
    /// Where template `template` comes from: the file the option of that
    /// name gives, else its builtin.
    pub fn get_template(&self, template: &str) -> (r: Result<TemplateSource, Error>)
        ensures
            match (r, fallback_of(self.opts(), template@)) {
                (Err(e), Err(k)) => e.kind == k,
                (Ok(TemplateSource::File(p)), Ok(_)) => path_of(self.opts(), template@) == Some(p@),
                (Ok(TemplateSource::Builtin(b)), Ok(c)) => path_of(self.opts(), template@) is None && b == c,
                _ => false,
            },
    {
        let k = chars_of(template);
        let fallback = if same(template, "epub.css") {
            Builtin::EpubCss
        } else if same(template, "epub.chapter.xhtml") {
            match self.options().get_int("epub.version") {
                Some(v) => if v == 3 {
                    Builtin::Epub3Chapter
                } else {
                    Builtin::EpubChapter
                },
                None => {
                    return Err(Error::new(ErrorKind::BookOption, None, "epub.version is not an integer"));
                },
            }
        } else if same(template, "html.css") {
            Builtin::HtmlCss
        } else if same(template, "html.css.colours") {
            Builtin::HtmlCssColours
        } else if same(template, "html.css.print") {
            Builtin::HtmlCssPrint
        } else if same(template, "html_single.html") {
            Builtin::HtmlSingleHtml
        } else if same(template, "html_single.js") {
            Builtin::HtmlSingleJs
        } else if same(template, "html.js") {
            Builtin::HtmlJs
        } else if same(template, "html_dir.index.html") {
            Builtin::HtmlDirIndex
        } else if same(template, "html_dir.chapter.html") {
            Builtin::HtmlDirChapter
        } else if same(template, "html.highlight.js") {
            Builtin::HighlightJs
        } else if same(template, "html.highlight.css") {
            Builtin::HighlightCss
        } else if same(template, "tex.template") {
            Builtin::TexTemplate
        } else {
            return Err(Error::new(ErrorKind::ConfigParser, None, "invalid template"));
        };
        match self.options().get_path(template) {
            Some(p) => Ok(TemplateSource::File(p)),
            None => Ok(TemplateSource::Builtin(fallback)),
        }
    }

    /// The path that output `format` is to be written to, if one is set.
    pub fn output_path(&self, format: &str) -> (r: Option<String>)
        ensures
            match (r, path_of(self.opts(), "output."@ + format@)) {
                (Some(p), Some(q)) => p@ == q,
                (None, None) => true,
                _ => false,
            },
    {
        let mut key = chars_of("output.");
        let f = chars_of(format);
        let mut i: usize = 0;
        let ghost k0 = key@;
        while i < f.len()
            invariant
                i <= f@.len(),
                key@ == k0 + f@.take(i as int),
            decreases f@.len() - i,
        {
            key.push(f[i]);
            i = i + 1;
            assert(f@.take(i as int) =~= f@.take(i - 1).push(f@[i - 1]));
        }
        assert(f@.take(i as int) =~= f@);
        let ks = string_of(key.as_slice());
        self.options().get_path(ks.as_str())
    }

    /// The metadata values, each rendered by `f`, each followed by its
    /// `has_` flag; then the version, the language flag, and the localized
    /// strings of `table` as `loc_` variables. The first value that `f`
    /// fails on ends it with a render error.
    pub fn get_metadata<F: Fn(&str) -> Result<String, Error>>(&self, table: &Vec<(String, String)>, f: F) -> (r: Result<
        Vec<(String, String)>,
        Error,
    >)
        requires
            forall|s: &str| f.requires((s,)),
        ensures
            r is Err ==> r->Err_0.kind == ErrorKind::Render,
            r matches Err(e) ==> metadata_failure(metadata_of(self.opts(), metadata_keys()), f, e.msg@),
            r matches Ok(v) ==> {
                let md = metadata_of(self.opts(), metadata_keys());
                &&& v@.len() >= 2 * md.len()
                &&& forall|i: int| 0 <= i < md.len() ==> #[trigger] rendered_entry(md, v@, f, i)
                &&& pairs_view(v@).skip(2 * md.len() as int) == tail_vars(lang_of(self.opts()), pairs_view(table@))
            },
    {
        let mut v = self.render_metadata(&f)?;
        let ghost head = v@;
        let lang = match self.options().get_str("lang") {
            Some(l) => l,
            None => String::new(),
        };
        let mut tail = tail_entries(lang.as_str(), table);
        v.append(&mut tail);
        proof {
            let md = metadata_of(self.opts(), metadata_keys());
            assert forall|i: int| 0 <= i < md.len() implies #[trigger] rendered_entry(md, v@, f, i) by {
                assert(rendered_entry(md, head, f, i));
                assert(v@[2 * i] == head[2 * i]);
                assert(v@[2 * i + 1] == head[2 * i + 1]);
            }
            assert(pairs_view(v@).skip(2 * md.len() as int) =~= pairs_view(v@.skip(head.len() as int)));
            assert(v@.skip(head.len() as int) =~= tail@.take(0) + v@.skip(head.len() as int));
        }
        Ok(v)
    }

    fn render_metadata<F: Fn(&str) -> Result<String, Error>>(&self, f: &F) -> (r: Result<Vec<(String, String)>, Error>)
        requires
            forall|s: &str| f.requires((s,)),
        ensures
            r is Err ==> r->Err_0.kind == ErrorKind::Render,
            r matches Err(e) ==> metadata_failure(metadata_of(self.opts(), metadata_keys()), *f, e.msg@),
            r matches Ok(v) ==> {
                let md = metadata_of(self.opts(), metadata_keys());
                &&& v@.len() == 2 * md.len()
                &&& forall|i: int| 0 <= i < md.len() ==> #[trigger] rendered_entry(md, v@, *f, i)
            },
    {
        let keys: [&str; 8] = ["author", "title", "lang", "subject", "description", "license", "version", "date"];
        let ghost ks = metadata_keys();
        assert(ks.len() == 8);
        let mut r: Vec<(String, String)> = Vec::new();
        let mut i: usize = 0;
        assert(metadata_of(self.opts(), ks.take(0)) =~= Seq::empty());
        while i < 8
            invariant
                i <= 8,
                ks == metadata_keys(),
                forall|s: &str| f.requires((s,)),
                forall|q: int| 0 <= q < 8 ==> (#[trigger] keys@[q])@ == ks[q],
                r@.len() == 2 * metadata_of(self.opts(), ks.take(i as int)).len(),
                forall|q: int| 0 <= q < metadata_of(self.opts(), ks.take(i as int)).len()
                    ==> #[trigger] rendered_entry(metadata_of(self.opts(), ks.take(i as int)), r@, *f, q),
            decreases 8 - i,
        {
            let ghost md0 = metadata_of(self.opts(), ks.take(i as int));
            let ghost r0 = r@;
            assert(ks.take(i + 1).drop_last() =~= ks.take(i as int));
            assert(ks.take(i + 1).last() == ks[i as int]);
            let k = keys[i];
            match self.options().get_str(k) {
                Some(val) => {
                    let vs = val.as_str();
                    let c = f(vs);
                    match c {
                        Ok(text) => {
                            let ghost t = text;
                            r.push((k.to_string(), text));
                            r.push((join_str("has_", k), "true".to_string()));
                            proof {
                                let md1 = metadata_of(self.opts(), ks.take(i + 1));
                                assert(md1 == md0.push((ks[i as int], val@)));
                                assert(r@[2 * md0.len() as int].1 == t);
                                assert(rendered_entry(md1, r@, *f, md0.len() as int));
                                assert forall|q: int| 0 <= q < md1.len() implies #[trigger] rendered_entry(md1, r@, *f, q) by {
                                    if q < md0.len() {
                                        assert(rendered_entry(md0, r0, *f, q));
                                        assert(r@[2 * q] == r0[2 * q]);
                                        assert(r@[2 * q + 1] == r0[2 * q + 1]);
                                    }
                                }
                            }
                        },
                        Err(e) => {
                            let head = join_str("could not render `", k);
                            let head = join_str(head.as_str(), "` for metadata: ");
                            let msg = join_str(head.as_str(), e.msg.as_str());
                            proof {
                                let md1 = metadata_of(self.opts(), ks.take(i + 1));
                                let md = metadata_of(self.opts(), ks);
                                assert(md1 == md0.push((ks[i as int], val@)));
                                lemma_metadata_prefix(self.opts(), ks, i + 1);
                                let q = md0.len() as int;
                                assert(md[q] == md1[q]);
                                assert(f.ensures((vs,), Err::<String, Error>(e)));
                            }
                            return Err(Error::new(ErrorKind::Render, None, msg.as_str()));
                        },
                    }
                },
                None => {},
            }
            i = i + 1;
        }
        assert(ks.take(8) =~= ks);
        Ok(r)
    }

    /// Compiles the chapter-header template of the options and keeps it.
    /// Fails with a template error where the template is not safe (it uses
    /// a partial, a change of delimiters or a `.` tag) or does not compile.
    pub fn set_chapter_template(&mut self) -> (r: Result<(), Error>)
        requires
            old(self).wf(),
        ensures
            final(self).wf(),
            r is Ok == header_compiles(old(self).opts()),
            r is Ok ==> final(self).has_chapter_template() && str_of(old(self).opts(), "rendering.chapter_template"@)
                == Some(final(self).chapter_template_source()),
            r is Err ==> r->Err_0.kind == ErrorKind::Template && final(self).has_chapter_template()
                == old(self).has_chapter_template() && final(self).chapter_template_source()
                == old(self).chapter_template_source(),
            final(self).opts() == old(self).opts(),
            final(self).chapters_view() == old(self).chapters_view(),
            final(self).filenames_view() == old(self).filenames_view(),
            final(self).formats_view() == old(self).formats_view(),
    {
        match self.options().get_str("rendering.chapter_template") {
            Some(t) => {
                let c = compile_str(t.as_str(), "could not compile template 'rendering.chapter_template'")?;
                self.keep_chapter_template(c);
                Ok(())
            },
            None => Err(Error::new(ErrorKind::Template, None, "no chapter template")),
        }
    }

    /// The variables that the header of chapter `n` titled `title` is
    /// rendered with, after the metadata variables `metadata`.
    pub fn header_vars(&self, n: i32, title: &str, metadata: &Vec<(String, String)>) -> (r: Vec<(String, String)>)
        ensures
            pairs_view(r@) == header_vars_spec(pairs_view(metadata@), n as int, title@),
    {
        let mut r: Vec<(String, String)> = Vec::new();
        let mut i: usize = 0;
        while i < metadata.len()
            invariant
                i <= metadata@.len(),
                pairs_view(r@) == pairs_view(metadata@).take(i as int),
            decreases metadata@.len() - i,
        {
            let ghost before = pairs_view(r@);
            r.push((metadata[i].0.clone(), metadata[i].1.clone()));
            assert(pairs_view(r@) =~= before.push(pairs_view(metadata@)[i as int]));
            assert(pairs_view(metadata@).take(i + 1) =~= pairs_view(metadata@).take(i as int).push(pairs_view(metadata@)[i as int]));
            i = i + 1;
        }
        assert(pairs_view(metadata@).take(i as int) =~= pairs_view(metadata@));
        let tc = chars_of(title);
        if tc.len() > 0 {
            r.push(("has_chapter_title".to_string(), "true".to_string()));
        }
        r.push(("chapter_title".to_string(), title.to_string()));
        r.push(("number".to_string(), number_text(n)));
        assert(pairs_view(r@) =~= header_vars_spec(pairs_view(metadata@), n as int, title@));
        r
    }

    /// The header of chapter `n` titled `title`: the chapter-header template
    /// rendered over `metadata` (the variables `get_metadata` gives) and the
    /// chapter's own variables, then handed to `f`, whose result it is.
    pub fn get_chapter_header<F: Fn(&str) -> Result<String, Error>>(
        &self,
        n: i32,
        title: &str,
        metadata: &Vec<(String, String)>,
        f: F,
    ) -> (r: Result<String, Error>)
        requires
            self.wf(),
            forall|s: &str| f.requires((s,)),
        ensures
            header_source(*self) is None ==> r is Err && r->Err_0.kind == ErrorKind::Template,
            header_source(*self) matches Some(src) ==> match mustache_render(
                src,
                header_vars_spec(pairs_view(metadata@), n as int, title@),
            ) {
                Some(h) => exists|s: &str| s@ == h && f.ensures((s,), r),
                None => r is Err && r->Err_0.kind == ErrorKind::Render,
            },
    {
        let vars = self.header_vars(n, title, metadata);
        let rendered = match self.chapter_template_ref() {
            Some(t) => render_template(t, &vars),
            None => {
                let src = match self.options().get_str("rendering.chapter_template") {
                    Some(s) => s,
                    None => {
                        return Err(Error::new(ErrorKind::Template, None, "no chapter template"));
                    },
                };
                let t = compile_str(src.as_str(), "could not compile template 'rendering.chapter_template'")?;
                render_template(&t, &vars)
            },
        };
        match rendered {
            Some(h) => {
                let hs = h.as_str();
                let r = f(hs);
                assert(hs@ == h@ && f.ensures((hs,), r));
                r
            },
            None => Err(Error::new(ErrorKind::Render, None, "could not render the chapter header")),
        }
    }
}

/// Entry `i` of the metadata `md` stands at `2 * i` of `v`, rendered by
/// `f`, and is followed by its `has_` flag.
pub open spec fn rendered_entry<F: Fn(&str) -> Result<String, Error>>(
    md: Seq<(Seq<char>, Seq<char>)>,
    v: Seq<(String, String)>,
    f: F,
    i: int,
) -> bool {
    &&& 0 <= 2 * i + 1 < v.len()
    &&& v[2 * i].0@ == md[i].0
    &&& exists|s: &str| s@ == md[i].1 && f.ensures((s,), Ok::<String, Error>(v[2 * i].1))
    &&& v[2 * i + 1].0@ == "has_"@ + md[i].0
    &&& v[2 * i + 1].1@ == flag()
}

/// `f` failed on the value of some metadata entry, and `msg` names that
/// entry and carries `f`'s message.
pub open spec fn metadata_failure<F: Fn(&str) -> Result<String, Error>>(
    md: Seq<(Seq<char>, Seq<char>)>,
    f: F,
    msg: Seq<char>,
) -> bool {
    exists|i: int, s: &str, e: Error|
        #![trigger md[i], f.ensures((s,), Err::<String, Error>(e))]
        0 <= i < md.len() && s@ == md[i].1 && f.ensures((s,), Err::<String, Error>(e))
            && msg == "could not render `"@ + md[i].0 + "` for metadata: "@ + e.msg@
}

/// The metadata of the first keys is a prefix of that of all of them.
pub proof fn lemma_metadata_prefix(m: Map<Seq<char>, OptModel>, keys: Seq<Seq<char>>, j: int)
    requires
        0 <= j <= keys.len(),
    ensures
        metadata_of(m, keys.take(j)).len() <= metadata_of(m, keys).len(),
        forall|q: int| 0 <= q < metadata_of(m, keys.take(j)).len() ==> #[trigger] metadata_of(m, keys.take(j))[q]
            == metadata_of(m, keys)[q],
    decreases keys.len() - j,
{
    if j == keys.len() {
        assert(keys.take(j) =~= keys);
    } else {
        lemma_metadata_prefix(m, keys, j + 1);
        assert(keys.take(j + 1).drop_last() =~= keys.take(j));
        assert(keys.take(j + 1).last() == keys[j]);
        let a = metadata_of(m, keys.take(j));
        let b = metadata_of(m, keys.take(j + 1));
        assert forall|q: int| 0 <= q < a.len() implies #[trigger] a[q] == metadata_of(m, keys)[q] by {
            assert(a[q] == b[q]);
        }
    }
}

/// The language of options `m`.
pub open spec fn lang_of(m: Map<Seq<char>, OptModel>) -> Seq<char> {
    match str_of(m, "lang"@) {
        Some(l) => l,
        None => Seq::empty(),
    }
}

fn tail_entries(lang: &str, table: &Vec<(String, String)>) -> (r: Vec<(String, String)>)
    ensures
        pairs_view(r@) == tail_vars(lang@, pairs_view(table@)),
{
    let mut r: Vec<(String, String)> = Vec::new();
    r.push(("crowbook_version".to_string(), VERSION.to_string()));
    r.push((join_str("lang_", lang), "true".to_string()));
    let ghost t = pairs_view(table@);
    let mut j: usize = 0;
    while j < table.len()
        invariant
            j <= table@.len(),
            t == pairs_view(table@),
            pairs_view(r@) == seq![("crowbook_version"@, VERSION@), ("lang_"@ + lang@, flag())] + Seq::new(
                j as nat,
                |q: int| ("loc_"@ + t[q].0, t[q].1),
            ),
        decreases table@.len() - j,
    {
        let ghost before = pairs_view(r@);
        r.push((join_str("loc_", table[j].0.as_str()), table[j].1.clone()));
        assert(pairs_view(r@) =~= before.push(("loc_"@ + t[j as int].0, t[j as int].1)));
        j = j + 1;
        assert(pairs_view(r@) =~= seq![("crowbook_version"@, VERSION@), ("lang_"@ + lang@, flag())] + Seq::new(
            j as nat,
            |q: int| ("loc_"@ + t[q].0, t[q].1),
        ));
    }
    r
}

fn same(a: &str, b: &str) -> (r: bool)
    ensures
        r == (a@ == b@),
{
    crate::text::same_chars(&chars_of(a), &chars_of(b))
}

} // verus!
