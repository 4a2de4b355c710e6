//! The book: its options, its chapters, the derived cleaning and
//! proofreading state, and the configuration scanner.
use vstd::prelude::*;
use crate::directive::{Number, DirectiveError, directive_of, parse_directive, is_marker};
use crate::error::{Error, ErrorKind};
use crate::options::{BookOptions, OptModel, apply_entries, bool_of, str_of, int_of, value_of};
use crate::text::{trim, trim_chars, split_lines, lines_of, string_of};
use crate::yaml::{single_mapping, starts_with_mapping, load_single_mapping, first_is_mapping};
use crate::token::{Token, TokenModel, tokens_view};
use crate::options::set_text_spec;
use crate::ingest::{chapter_front, strip_embedded, rewrite_all, link_offset, image_offset, escapes_root, parent_dir, rewrite_tokens};
use crate::text::chars_of;
use crate::templates::{ChapterTemplate, safe_template};

verus! {

/// Which text-cleaning rules apply, and with which refinements.
#[derive(Clone, Copy, Debug, PartialEq, Eq, Structural)]
pub struct CleanerParams {
    pub smart_quotes: bool,
    pub ligature_dashes: bool,
    pub ligature_guillemets: bool,
}

/// The text-cleaning policy of a book.
#[derive(Clone, Copy, Debug, PartialEq, Eq, Structural)]
pub enum Cleaner {
    Off,
    Default(CleanerParams),
    French(CleanerParams),
}

/// What the proofreading hook is to connect to, when it is active.
pub struct CheckerConfig {
    pub port: i64,
    pub lang: String,
}

/// What `str::to_lowercase` makes of a string.
pub uninterp spec fn lower_of(s: Seq<char>) -> Seq<char>;

/// Relies on `str::to_lowercase`: the lowercase form of `s`.
#[verifier::external_body]
fn lowercase(s: &str) -> (r: String)
    ensures
        r@ == lower_of(s@),
{
    s.to_lowercase()
}

pub open spec fn cleaner_params(m: Map<Seq<char>, OptModel>) -> CleanerParams {
    CleanerParams {
        smart_quotes: bool_of(m, "input.clean.smart_quotes"@) == Some(true),
        ligature_dashes: bool_of(m, "input.clean.ligature.dashes"@) == Some(true),
        ligature_guillemets: bool_of(m, "input.clean.ligature.guillemets"@) == Some(true),
    }
}

pub open spec fn is_french(lang: Seq<char>) -> bool {
    let l = lower_of(lang);
    l.len() >= 2 && l[0] == 'f' && l[1] == 'r'
}

/// The cleaning policy that options `m` call for.
pub open spec fn cleaner_for(m: Map<Seq<char>, OptModel>) -> Cleaner {
    if bool_of(m, "input.clean"@) == Some(true) {
        match str_of(m, "lang"@) {
            Some(l) => if is_french(l) {
                Cleaner::French(cleaner_params(m))
            } else {
                Cleaner::Default(cleaner_params(m))
            },
            None => Cleaner::Default(cleaner_params(m)),
        }
    } else {
        Cleaner::Off
    }
}

/// Proofreading is on, and some proofreading output is configured.
pub open spec fn is_proofread_spec(m: Map<Seq<char>, OptModel>) -> bool {
    bool_of(m, "proofread"@) == Some(true) && (value_of(m, "output.proofread.html"@) is Some
        || value_of(m, "output.proofread.html_dir"@) is Some || value_of(
        m,
        "output.proofread.pdf"@,
    ) is Some)
}

/// The proofreading hook that options `m` call for: its port and language.
pub open spec fn checker_for(m: Map<Seq<char>, OptModel>) -> Option<(int, Seq<char>)> {
    if bool_of(m, "proofread.languagetool"@) == Some(true) && is_proofread_spec(m) {
        match (int_of(m, "proofread.languagetool.port"@), str_of(m, "lang"@)) {
            (Some(p), Some(l)) => Some((p, l)),
            _ => None,
        }
    } else {
        None
    }
}

/// A line that starts the chapter list.
pub open spec fn starts_chapters(l: Seq<char>) -> bool {
    l.len() > 0 && is_marker(l[0])
}

/// The index of the first line, from `i` on, that starts the chapter list.
pub open spec fn front_end(lines: Seq<Seq<char>>, i: nat) -> nat
    decreases lines.len() - i,
{
    if i >= lines.len() || starts_chapters(lines[i as int]) {
        i
    } else {
        front_end(lines, i + 1)
    }
}

/// A front-matter line whose value goes on over the next lines.
pub open spec fn continues(l: Seq<char>) -> bool {
    let t = trim(l);
    t.len() > 0 && (t.last() == '>' || t.last() == '|' || t.last() == ':' || t.last() == '-')
}

/// Applying an accumulated front-matter document to options `m`: the
/// options after, and the class of the error, if any.
pub open spec fn flush_spec(m: Map<Seq<char>, OptModel>, buf: Seq<char>) -> (
    Map<Seq<char>, OptModel>,
    Option<ErrorKind>,
) {
    match single_mapping(buf) {
        None => (m, Some(ErrorKind::ConfigParser)),
        Some(es) => {
            let (m2, ok) = apply_entries(m, es);
            if ok {
                (m2, None)
            } else {
                (m2, Some(ErrorKind::BookOption))
            }
        },
    }
}

/// The front-matter scan from line `i`, with `buf` accumulated and options
/// `m`: the options, the buffer left over, and a schema error that ends it.
pub open spec fn scan_front(
    lines: Seq<Seq<char>>,
    end: nat,
    i: nat,
    buf: Seq<char>,
    m: Map<Seq<char>, OptModel>,
) -> (Map<Seq<char>, OptModel>, Seq<char>, Option<ErrorKind>)
    decreases end - i,
{
    if i >= end || i >= lines.len() {
        (m, buf, None)
    } else {
        let buf2 = buf + lines[i as int] + seq!['\n'];
        if continues(lines[i as int]) || i + 1 >= lines.len() || !starts_with_mapping(
            lines[i + 1 as int],
        ) {
            scan_front(lines, end, i + 1, buf2, m)
        } else {
            let (m2, err) = flush_spec(m, buf2);
            match err {
                None => scan_front(lines, end, i + 1, Seq::empty(), m2),
                Some(ErrorKind::BookOption) => (m2, buf2, Some(ErrorKind::BookOption)),
                Some(_) => scan_front(lines, end, i + 1, buf2, m),
            }
        }
    }
}

/// The options once the whole front matter of `lines` is applied to `m`,
/// and the class of the error that ends the load, if any.
pub open spec fn front_matter(lines: Seq<Seq<char>>, m: Map<Seq<char>, OptModel>) -> (
    Map<Seq<char>, OptModel>,
    Option<ErrorKind>,
) {
    let (m1, buf, err) = scan_front(lines, front_end(lines, 0), 0, Seq::empty(), m);
    if err is Some {
        (m1, err)
    } else if buf.len() == 0 {
        (m1, None)
    } else {
        flush_spec(m1, buf)
    }
}

/// A chapter-list line that carries no directive.
pub open spec fn is_blank_or_comment(t: Seq<char>) -> bool {
    t.len() == 0 || t[0] == '#'
}

/// The directives of the chapter list from line `j` on, or the first
/// refused one, with its line index.
pub open spec fn directives_from(lines: Seq<Seq<char>>, j: nat) -> Result<
    Seq<(Number, Seq<char>)>,
    (DirectiveError, nat),
>
    decreases lines.len() - j,
{
    if j >= lines.len() {
        Ok(Seq::empty())
    } else {
        let t = trim(lines[j as int]);
        if is_blank_or_comment(t) {
            directives_from(lines, j + 1)
        } else {
            match directive_of(t) {
                Err(e) => Err((e, j)),
                Ok(d) => match directives_from(lines, j + 1) {
                    Ok(rest) => Ok(seq![d] + rest),
                    Err(x) => Err(x),
                },
            }
        }
    }
}

/// What loading the configuration `s` over options `m` gives: the options
/// after, and either the chapter directives or the class of the error.
pub open spec fn load_spec(s: Seq<char>, m: Map<Seq<char>, OptModel>) -> (
    Map<Seq<char>, OptModel>,
    Result<Seq<(Number, Seq<char>)>, ErrorKind>,
) {
    let lines = lines_of(s);
    let (m1, err) = front_matter(lines, m);
    match err {
        Some(k) => (m1, Err(k)),
        None => match directives_from(lines, front_end(lines, 0)) {
            Ok(d) => (m1, Ok(d)),
            Err(_) => (m1, Err(ErrorKind::ConfigParser)),
        },
    }
}

/// Applies one accumulated front-matter document to `opts`.
fn flush(opts: &mut BookOptions, buf: &Vec<char>) -> (r: Result<(), Error>)
    ensures
        final(opts).view() == flush_spec(old(opts).view(), buf@).0,
        match (r, flush_spec(old(opts).view(), buf@).1) {
            (Ok(()), None) => true,
            (Err(e), Some(k)) => e.kind == k,
            _ => false,
        },
{
    let s = string_of(buf.as_slice());
    match load_single_mapping(s.as_str()) {
        None => Err(Error::new(ErrorKind::ConfigParser, None, "front matter is not a valid mapping")),
        Some(es) => opts.set_entries(&es),
    }
}

fn is_marker_char(c: char) -> (r: bool)
    ensures
        r == is_marker(c),
{
    c == '-' || c == '+' || c == '!' || ('0' <= c && c <= '9')
}

fn line_continues(l: &Vec<char>) -> (r: bool)
    ensures
        r == continues(l@),
{
    let t = trim_chars(l);
    if t.len() == 0 {
        false
    } else {
        let c = t[t.len() - 1];
        c == '>' || c == '|' || c == ':' || c == '-'
    }
}

/// Appends `l` and a newline to `buf`.
/// The warning given for a chapter that lies above the book's directory.
pub open spec fn above_root_warning() -> Seq<char> {
    "a chapter lies in a directory above the book file"@
}

fn starts_above(off: &Vec<char>) -> (r: bool)
    ensures
        r == escapes_root(off@),
{
    (off.len() == 2 || (off.len() > 2 && off[2] == '/')) && off[0] == '.' && off[1] == '.'
}

pub(crate) fn push_line(buf: &mut Vec<char>, l: &Vec<char>)
    ensures
        final(buf)@ == old(buf)@ + l@ + seq!['\n'],
{
    let mut i: usize = 0;
    while i < l.len()
        invariant
            i <= l@.len(),
            buf@ == old(buf)@ + l@.take(i as int),
        decreases l@.len() - i,
    {
        buf.push(l[i]);
        i = i + 1;
        assert(l@.take(i as int) =~= l@.take(i - 1).push(l@[i - 1]));
    }
    assert(l@.take(i as int) =~= l@);
    buf.push('\n');
}

/// The book under construction.
pub struct Book {
    chapters: Vec<(Number, Vec<Token>)>,
    filenames: Vec<String>,
    options: BookOptions,
    root: String,
    line: Option<usize>,
    cleaner: Cleaner,
    checker: Option<CheckerConfig>,
    chapter_template: Option<ChapterTemplate>,
    derived: bool,
    formats: Vec<(String, String)>,
    warnings: Vec<String>,
}

pub open spec fn pair_log(v: Seq<(String, String)>) -> Seq<(Seq<char>, Seq<char>)> {
    Seq::new(v.len(), |i: int| (v[i].0@, v[i].1@))
}

/// The map built by applying the assignments of `s` in order.
pub open spec fn pair_map(s: Seq<(Seq<char>, Seq<char>)>) -> Map<Seq<char>, Seq<char>>
    decreases s.len(),
{
    if s.len() == 0 {
        Map::empty()
    } else {
        pair_map(s.drop_last()).insert(s.last().0, s.last().1)
    }
}

impl Book {
    /// The chapters, in reading order: their numbering and their tokens.
    pub closed spec fn chapters_view(&self) -> Seq<(Number, Seq<TokenModel>)> {
        Seq::new(self.chapters@.len(), |i: int| (self.chapters@[i].0, tokens_view(self.chapters@[i].1@)))
    }

    /// The file of each chapter; empty for a chapter given as text.
    pub closed spec fn filenames_view(&self) -> Seq<Seq<char>> {
        Seq::new(self.filenames@.len(), |i: int| self.filenames@[i]@)
    }

    /// The options set on the book.
    pub closed spec fn opts(&self) -> Map<Seq<char>, OptModel> {
        self.options.view()
    }

    /// The registered formats: the description of each.
    pub closed spec fn formats_view(&self) -> Map<Seq<char>, Seq<char>> {
        pair_map(pair_log(self.formats@))
    }

    pub closed spec fn cleaner_view(&self) -> Cleaner {
        self.cleaner
    }

    pub closed spec fn checker_view(&self) -> Option<(int, Seq<char>)> {
        match self.checker {
            Some(c) => Some((c.port as int, c.lang@)),
            None => None,
        }
    }

    /// The warnings gathered, in order.
    pub closed spec fn warnings_view(&self) -> Seq<Seq<char>> {
        Seq::new(self.warnings@.len(), |i: int| self.warnings@[i]@)
    }

    pub closed spec fn root_view(&self) -> Seq<char> {
        self.root@
    }

    /// Whether the derived state has been computed from the options: a new
    /// book has cleaning off and no proofreading hook until it is.
    pub closed spec fn derived_current(&self) -> bool {
        self.derived
    }

    /// Whether a chapter-header template has been compiled and kept.
    pub closed spec fn has_chapter_template(&self) -> bool {
        self.chapter_template is Some
    }

    /// The text of the kept chapter-header template.
    pub closed spec fn chapter_template_source(&self) -> Seq<char> {
        match self.chapter_template {
            Some(t) => t.source_view(),
            None => Seq::empty(),
        }
    }

    /// Chapters and file names correspond index for index, the derived
    /// state is what the options call for once computed, and a kept
    /// template is one that mustache renders safely.
    pub closed spec fn wf(&self) -> bool {
        &&& self.chapters@.len() == self.filenames@.len()
        &&& self.cleaner == if self.derived {
            cleaner_for(self.options.view())
        } else {
            Cleaner::Off
        }
        &&& self.checker_view() == if self.derived {
            checker_for(self.options.view())
        } else {
            None
        }
        &&& self.chapter_template matches Some(t) ==> safe_template(t.source_view())
    }

    /// Once computed, the cleaning policy and the proofreading hook are the
    /// ones the options call for.
    pub proof fn law_derived_follows_options(&self)
        requires
            self.wf(),
            self.derived_current(),
        ensures
            self.cleaner_view() == cleaner_for(self.opts()),
            self.checker_view() == checker_for(self.opts()),
    {
    }

    /// In a well-formed book each chapter has its file name.
    pub proof fn law_chapters_match_filenames(&self)
        requires
            self.wf(),
        ensures
            self.chapters_view().len() == self.filenames_view().len(),
    {
    }

    /// Recomputes the cleaning policy and the proofreading hook from the options.
    fn update_derived(&mut self)
        ensures
            final(self).cleaner == cleaner_for(final(self).options.view()),
            final(self).checker_view() == checker_for(final(self).options.view()),
            final(self).derived,
            final(self).chapter_template == old(self).chapter_template,
            final(self).options == old(self).options,
            final(self).chapters == old(self).chapters,
            final(self).filenames == old(self).filenames,
            final(self).formats == old(self).formats,
            final(self).root == old(self).root,
    {
        self.derived = true;
        let params = CleanerParams {
            smart_quotes: self.options.get_bool("input.clean.smart_quotes") == Some(true),
            ligature_dashes: self.options.get_bool("input.clean.ligature.dashes") == Some(true),
            ligature_guillemets: self.options.get_bool("input.clean.ligature.guillemets") == Some(true),
        };
        if self.options.get_bool("input.clean") == Some(true) {
            self.cleaner = match self.options.get_str("lang") {
                Some(l) => {
                    let low = lowercase(l.as_str());
                    let lc = crate::text::chars_of(low.as_str());
                    if lc.len() >= 2 && lc[0] == 'f' && lc[1] == 'r' {
                        Cleaner::French(params)
                    } else {
                        Cleaner::Default(params)
                    }
                },
                None => Cleaner::Default(params),
            };
        } else {
            self.cleaner = Cleaner::Off;
        }
        self.checker = None;
        if self.options.get_bool("proofread.languagetool") == Some(true) && self.is_proofread() {
            match (self.options.get_int("proofread.languagetool.port"), self.options.get_str("lang")) {
                (Some(port), Some(lang)) => {
                    self.checker = Some(CheckerConfig { port, lang });
                },
                _ => {},
            }
        }
    }

    /// Whether proofreading is on and some proofreading output is configured.
    pub fn is_proofread(&self) -> (r: bool)
        ensures
            r == is_proofread_spec(self.opts()),
    {
        self.options.get_bool("proofread") == Some(true) && (self.options.get("output.proofread.html").is_some()
            || self.options.get("output.proofread.html_dir").is_some() || self.options.get(
            "output.proofread.pdf",
        ).is_some())
    }

    /// Reads a book configuration: front matter, then the chapter list.
    ///
    /// The options of the front matter are applied and the derived state is
    /// recomputed; an error there is returned as the error. Otherwise the
    /// chapter directives are returned in document order, up to the first
    /// refused line, with that line's error if there is one: the caller
    /// ingests each chapter in turn, then reports the error.
    pub fn read_config(&mut self, source: &str) -> (r: Result<(Vec<(Number, String)>, Option<Error>), Error>)
        requires
            old(self).wf(),
        ensures
            final(self).wf(),
            final(self).derived_current(),
            final(self).chapters_view() == old(self).chapters_view(),
            final(self).filenames_view() == old(self).filenames_view(),
            final(self).formats_view() == old(self).formats_view(),
            final(self).opts() == load_spec(source@, old(self).opts()).0,
            match (r, load_spec(source@, old(self).opts()).1) {
                (Ok((ds, None)), Ok(sd)) => directives_view(ds@) == sd,
                (Ok((ds, Some(e))), Err(k)) => e.kind == k && front_matter(lines_of(source@), old(self).opts()).1 is None
                    && directives_view(ds@) == directives_before(lines_of(source@), front_end(lines_of(source@), 0)),
                (Err(e), Err(k)) => e.kind == k && front_matter(lines_of(source@), old(self).opts()).1 == Some(k),
                _ => false,
            },
    {
        let lines = split_lines(source);
        proof {
            assert(lines_view(lines@) =~= lines_of(source@));
        }
        let e = front_len(&lines);
        let front = scan_front_matter(&mut self.options, &lines, e);
        self.update_derived();
        match front {
            Err(err) => {
                self.line = err.line;
                return Err(err);
            },
            Ok(()) => {},
        }
        let (ds, err) = chapter_directives(&lines, e);
        self.line = match &err {
            Some(x) => x.line,
            None => None,
        };
        Ok((ds, err))
    }
}

pub open spec fn lines_view(v: Seq<Vec<char>>) -> Seq<Seq<char>> {
    Seq::new(v.len(), |k: int| v[k]@)
}

/// The number of front-matter lines.
fn front_len(lines: &Vec<Vec<char>>) -> (e: usize)
    ensures
        e as nat == front_end(lines_view(lines@), 0),
        e <= lines@.len(),
{
    let ghost ls = lines_view(lines@);
    let mut e: usize = 0;
    while e < lines.len() && !(lines[e].len() > 0 && is_marker_char(lines[e][0]))
        invariant
            e <= lines@.len(),
            ls == lines_view(lines@),
            front_end(ls, 0) == front_end(ls, e as nat),
        decreases lines@.len() - e,
    {
        e = e + 1;
    }
    e
}

/// Scans the front matter, applying each document to `opts` as soon as the
/// next line shows that it is complete, and the rest at the end.
fn scan_front_matter(opts: &mut BookOptions, lines: &Vec<Vec<char>>, e: usize) -> (r: Result<(), Error>)
    requires
        e as nat == front_end(lines_view(lines@), 0),
        e <= lines@.len(),
    ensures
        final(opts).view() == front_matter(lines_view(lines@), old(opts).view()).0,
        match (r, front_matter(lines_view(lines@), old(opts).view()).1) {
            (Ok(()), None) => true,
            (Err(err), Some(k)) => err.kind == k,
            _ => false,
        },
{
    let ghost ls = lines_view(lines@);
    let ghost m0 = opts.view();
    let mut buf: Vec<char> = Vec::new();
    let mut i: usize = 0;
    while i < e
        invariant
            e <= lines@.len(),
            ls == lines_view(lines@),
            i <= e,
            e == front_end(ls, 0),
            m0 == old(opts).view(),
            scan_front(ls, e as nat, 0, Seq::empty(), m0) == scan_front(ls, e as nat, i as nat, buf@, opts.view()),
        decreases e - i,
    {
        let ghost before = opts.view();
        let mut buf2 = buf.clone();
        assert(buf2@ == buf@);
        push_line(&mut buf2, &lines[i]);
        let cont = line_continues(&lines[i]);
        let look = if cont || i + 1 >= lines.len() {
            false
        } else {
            let next = string_of(lines[i + 1].as_slice());
            first_is_mapping(next.as_str())
        };
        if !look {
            buf = buf2;
        } else {
            match flush(opts, &buf2) {
                Ok(()) => {
                    buf = Vec::new();
                },
                Err(err) => {
                    if err.is_book_option() {
                        assert(scan_front(ls, e as nat, i as nat, buf@, before) == (opts.view(), buf2@, Some(ErrorKind::BookOption)));
                        assert(scan_front(ls, front_end(ls, 0), 0, Seq::empty(), m0) == (opts.view(), buf2@, Some(ErrorKind::BookOption)));
                        assert(front_matter(ls, m0) == (opts.view(), Some(ErrorKind::BookOption)));
                        return Err(Error { line: Some(i + 1), ..err });
                    }
                    buf = buf2;
                },
            }
        }
        i = i + 1;
    }
    assert(scan_front(ls, e as nat, i as nat, buf@, opts.view()) == (opts.view(), buf@, None::<ErrorKind>));
    if buf.len() > 0 {
        if let Err(err) = flush(opts, &buf) {
            return Err(Error { line: Some(e), ..err });
        }
    }
    Ok(())
}

/// The directives of the chapter list from line `j` on, up to the first
/// refused one.
pub open spec fn directives_before(lines: Seq<Seq<char>>, j: nat) -> Seq<(Number, Seq<char>)>
    decreases lines.len() - j,
{
    if j >= lines.len() {
        Seq::empty()
    } else {
        let t = trim(lines[j as int]);
        if is_blank_or_comment(t) {
            directives_before(lines, j + 1)
        } else {
            match directive_of(t) {
                Err(_) => Seq::empty(),
                Ok(d) => seq![d] + directives_before(lines, j + 1),
            }
        }
    }
}

pub open spec fn directives_view(v: Seq<(Number, String)>) -> Seq<(Number, Seq<char>)> {
    Seq::new(v.len(), |k: int| (v[k].0, v[k].1@))
}

/// Reads the chapter list, from line `e` on: the directives up to the first
/// refused line, and the error of that line.
fn chapter_directives(lines: &Vec<Vec<char>>, e: usize) -> (r: (Vec<(Number, String)>, Option<Error>))
    requires
        e <= lines@.len(),
    ensures
        directives_view(r.0@) == directives_before(lines_view(lines@), e as nat),
        r.1 is None == directives_from(lines_view(lines@), e as nat) is Ok,
        r.1 is None ==> directives_from(lines_view(lines@), e as nat) == Ok::<Seq<(Number, Seq<char>)>, (DirectiveError, nat)>(directives_view(r.0@)),
        r.1 matches Some(err) ==> err.kind == ErrorKind::ConfigParser,
{
    let ghost ls = lines_view(lines@);
    let mut acc: Vec<(Number, String)> = Vec::new();
    let mut j: usize = e;
    assert(directives_view(acc@) + Seq::empty() =~= Seq::empty());
    assert(directives_view(acc@) =~= Seq::empty());
    while j < lines.len()
        invariant
            e <= j <= lines@.len(),
            ls == lines_view(lines@),
            directives_from(ls, e as nat) == match directives_from(ls, j as nat) {
                Ok(rest) => Ok(directives_view(acc@) + rest),
                Err(x) => Err(x),
            },
            directives_before(ls, e as nat) == directives_view(acc@) + directives_before(ls, j as nat),
        decreases lines@.len() - j,
    {
        let t = trim_chars(&lines[j]);
        if t.len() == 0 || t[0] == '#' {
        } else {
            match parse_directive(&t) {
                Err(_) => {
                    assert(directives_view(acc@) + Seq::empty() =~= directives_view(acc@));
                    let err = Error::new(ErrorKind::ConfigParser, Some(j + 1), "invalid chapter definition in the chapter list");
                    return (acc, Some(err));
                },
                Ok((n, f)) => {
                    let ghost before = directives_view(acc@);
                    let fs = string_of(f.as_slice());
                    acc.push((n, fs));
                    proof {
                        let after = directives_view(acc@);
                        assert(after =~= before.push((n, f@)));
                        assert(after + directives_before(ls, (j + 1) as nat) =~= before + (seq![(n, f@)] + directives_before(ls, (j + 1) as nat)));
                        match directives_from(ls, (j + 1) as nat) {
                            Ok(rest) => {
                                assert(after + rest =~= before + (seq![(n, f@)] + rest));
                            },
                            Err(_) => {},
                        }
                    }
                },
            }
        }
        j = j + 1;
    }
    proof {
        let av = directives_view(acc@);
        assert(av + Seq::empty() =~= av);
    }
    (acc, None)
}

/// The formats that a new book can render, with their descriptions.
pub open spec fn builtin_formats() -> Map<Seq<char>, Seq<char>> {
    Map::empty().insert("html"@, "HTML (standalone page)"@).insert(
        "proofread.html"@,
        "HTML (standalone page/proofreading)"@,
    ).insert("html_dir"@, "HTML (multiple pages)"@).insert(
        "proofread.html_dir"@,
        "HTML (multiple pages/proofreading)"@,
    ).insert("tex"@, "LaTeX"@).insert("proofread.tex"@, "LaTeX (proofreading)"@).insert(
        "pdf"@,
        "PDF"@,
    ).insert("proofread.pdf"@, "PDF (proofreading)"@).insert("epub"@, "EPUB"@).insert(
        "odt"@,
        "ODT"@,
    )
}

/// Setting each `(key, value)` of `s` in order; those refused are passed over.
pub open spec fn set_all(m: Map<Seq<char>, OptModel>, s: Seq<(Seq<char>, Seq<char>)>) -> Map<
    Seq<char>,
    OptModel,
>
    decreases s.len(),
{
    if s.len() == 0 {
        m
    } else {
        let m2 = match set_text_spec(m, s[0].0, s[0].1) {
            Some(x) => x,
            None => m,
        };
        set_all(m2, s.drop_first())
    }
}

pub open spec fn listed_if(b: bool, f: Seq<char>) -> Seq<Seq<char>> {
    if b {
        seq![f]
    } else {
        Seq::empty()
    }
}

pub open spec fn is_set(m: Map<Seq<char>, OptModel>, k: Seq<char>) -> bool {
    value_of(m, k) is Some
}

/// The formats to render, in order: each whose output option is set, the
/// proofreading ones only when proofreading is on.
pub open spec fn render_plan(m: Map<Seq<char>, OptModel>) -> Seq<Seq<char>> {
    let main = listed_if(is_set(m, "output.pdf"@), "pdf"@) + listed_if(is_set(m, "output.epub"@), "epub"@)
        + listed_if(is_set(m, "output.html_dir"@), "html_dir"@) + listed_if(is_set(m, "output.odt"@), "odt"@)
        + listed_if(is_set(m, "output.html"@), "html"@) + listed_if(is_set(m, "output.tex"@), "tex"@);
    if is_proofread_spec(m) {
        main + listed_if(is_set(m, "output.proofread.pdf"@), "proofread.pdf"@) + listed_if(
            is_set(m, "output.proofread.html_dir"@),
            "proofread.html_dir"@,
        ) + listed_if(is_set(m, "output.proofread.html"@), "proofread.html"@)
    } else {
        main
    }
}

fn push_when(plan: &mut Vec<String>, b: bool, f: &str)
    ensures
        strings_view(final(plan)@) == strings_view(old(plan)@) + listed_if(b, f@),
{
    if b {
        plan.push(f.to_string());
    }
    assert(strings_view(plan@) =~= strings_view(old(plan)@) + listed_if(b, f@));
}

pub open spec fn strings_view(v: Seq<String>) -> Seq<Seq<char>> {
    Seq::new(v.len(), |i: int| v[i]@)
}

impl Book {
    /// A new, empty book, with the builtin formats registered.
    pub fn new() -> (r: Book)
        ensures
            r.wf(),
            r.chapters_view().len() == 0,
            r.filenames_view().len() == 0,
            r.opts() == Map::<Seq<char>, OptModel>::empty(),
            r.formats_view() == builtin_formats(),
            r.cleaner_view() == Cleaner::Off,
            r.checker_view() is None,
            !r.has_chapter_template(),
    {
        let mut b = Book {
            chapters: Vec::new(),
            filenames: Vec::new(),
            options: BookOptions::new(),
            root: String::new(),
            line: None,
            cleaner: Cleaner::Off,
            checker: None,
            chapter_template: None,
            derived: false,
            formats: Vec::new(),
            warnings: Vec::new(),
        };
        assert(b.chapters_view() =~= Seq::empty());
        assert(b.filenames_view() =~= Seq::empty());
        assert(pair_log(b.formats@) =~= Seq::empty());
        b.add_format("html", "HTML (standalone page)");
        b.add_format("proofread.html", "HTML (standalone page/proofreading)");
        b.add_format("html_dir", "HTML (multiple pages)");
        b.add_format("proofread.html_dir", "HTML (multiple pages/proofreading)");
        b.add_format("tex", "LaTeX");
        b.add_format("proofread.tex", "LaTeX (proofreading)");
        b.add_format("pdf", "PDF");
        b.add_format("proofread.pdf", "PDF (proofreading)");
        b.add_format("epub", "EPUB");
        b.add_format("odt", "ODT");
        b
    }

    /// Registers a format; one already registered under `format` is replaced.
    pub fn add_format(&mut self, format: &str, description: &str)
        requires
            old(self).wf(),
        ensures
            final(self).wf(),
            final(self).formats_view() == old(self).formats_view().insert(format@, description@),
            final(self).cleaner_view() == old(self).cleaner_view(),
            final(self).checker_view() == old(self).checker_view(),
            final(self).has_chapter_template() == old(self).has_chapter_template(),
            final(self).chapters_view() == old(self).chapters_view(),
            final(self).filenames_view() == old(self).filenames_view(),
            final(self).opts() == old(self).opts(),
    {
        let ghost before = pair_log(self.formats@);
        self.formats.push((format.to_string(), description.to_string()));
        assert(pair_log(self.formats@).drop_last() =~= before);
    }

    /// The description of `format`, or an error where no format of that
    /// name is registered.
    pub fn render_target(&self, format: &str) -> (r: Result<String, Error>)
        ensures
            match r {
                Ok(d) => self.formats_view().contains_key(format@) && self.formats_view()[format@] == d@,
                Err(e) => !self.formats_view().contains_key(format@) && e.kind == ErrorKind::Default,
            },
    {
        match self.format_description(format) {
            Some(d) => Ok(d),
            None => Err(Error::new(ErrorKind::Default, None, "unknown format")),
        }
    }

    /// The description of a registered format.
    pub fn format_description(&self, format: &str) -> (r: Option<String>)
        ensures
            match r {
                Some(d) => self.formats_view().contains_key(format@) && self.formats_view()[format@] == d@,
                None => !self.formats_view().contains_key(format@),
            },
    {
        let k = chars_of(format);
        let ghost log = pair_log(self.formats@);
        let mut i: usize = self.formats.len();
        assert(log.take(i as int) =~= log);
        while i > 0
            invariant
                i <= self.formats@.len(),
                log == pair_log(self.formats@),
                k@ == format@,
                pair_map(log.take(i as int)).contains_key(k@) == pair_map(log).contains_key(k@),
                pair_map(log.take(i as int)).contains_key(k@) ==> pair_map(log.take(i as int))[k@] == pair_map(log)[k@],
            decreases i,
        {
            assert(log.take(i as int).drop_last() =~= log.take(i - 1));
            let key = chars_of(self.formats[i - 1].0.as_str());
            if crate::text::same_chars(&key, &k) {
                return Some(self.formats[i - 1].1.clone());
            }
            i = i - 1;
        }
        None
    }

    /// Sets options from `(key, value)` text pairs, each value read as YAML;
    /// those that the schema refuses are passed over. Returns how many were.
    pub fn set_options(&mut self, options: &[(&str, &str)]) -> (r: usize)
        requires
            old(self).wf(),
        ensures
            final(self).wf(),
            final(self).derived_current(),
            final(self).opts() == set_all(old(self).opts(), Seq::new(options@.len(), |i: int| (options@[i].0@, options@[i].1@))),
            final(self).chapters_view() == old(self).chapters_view(),
            final(self).filenames_view() == old(self).filenames_view(),
            final(self).formats_view() == old(self).formats_view(),
    {
        let ghost all = Seq::new(options@.len(), |i: int| (options@[i].0@, options@[i].1@));
        let mut refused: usize = 0;
        let mut i: usize = 0;
        assert(all.skip(0) =~= all);
        while i < options.len()
            invariant
                i <= options@.len(),
                all == Seq::new(options@.len(), |i: int| (options@[i].0@, options@[i].1@)),
                set_all(old(self).opts(), all) == set_all(self.options.view(), all.skip(i as int)),
                self.chapters == old(self).chapters,
                self.filenames == old(self).filenames,
                self.formats == old(self).formats,
                self.root == old(self).root,
                self.chapter_template == old(self).chapter_template,
            decreases options@.len() - i,
        {
            assert(all.skip(i as int).drop_first() =~= all.skip(i + 1));
            assert(all.skip(i as int)[0] == all[i as int]);
            let (k, v) = options[i];
            if self.options.set(k, v).is_err() && refused < usize::MAX {
                refused = refused + 1;
            }
            i = i + 1;
        }
        assert(all.skip(i as int) =~= Seq::<(Seq<char>, Seq<char>)>::empty());
        self.update_derived();
        refused
    }

    /// Takes the embedded front-matter blocks out of a chapter's content,
    /// applying those that set options, and recomputes the derived state.
    /// Returns the content left, for the markup parser.
    pub fn strip_front_matter(&mut self, content: &str) -> (r: String)
        requires
            old(self).wf(),
        ensures
            final(self).wf(),
            final(self).derived_current(),
            (r@, final(self).opts()) == chapter_front(content@, old(self).opts()),
            final(self).chapters_view() == old(self).chapters_view(),
            final(self).filenames_view() == old(self).filenames_view(),
            final(self).formats_view() == old(self).formats_view(),
    {
        let lines = split_lines(content);
        assert(Seq::new(lines@.len(), |k: int| lines@[k]@) =~= lines_of(content@));
        let (out, refused) = strip_embedded(&mut self.options, &lines);
        if refused > 0 {
            self.warnings.push("an embedded block set options that do not exist or have another type".to_string());
        }
        self.update_derived();
        string_of(out.as_slice())
    }

    /// Adds a parsed chapter read from `file`, relative to the book's
    /// directory, with its local links and images rewritten relative to it.
    pub fn add_chapter(&mut self, number: Number, file: &str, tokens: &Vec<Token>)
        requires
            old(self).wf(),
        ensures
            final(self).wf(),
            final(self).chapters_view() == old(self).chapters_view().push(
                (number, rewrite_all(tokens_view(tokens@), link_offset(old(self).opts(), file@), image_offset(old(self).opts(), file@))),
            ),
            final(self).filenames_view() == old(self).filenames_view().push(file@),
            final(self).opts() == old(self).opts(),
            final(self).formats_view() == old(self).formats_view(),
            final(self).warnings_view() == if escapes_root(link_offset(old(self).opts(), file@))
                || escapes_root(image_offset(old(self).opts(), file@)) {
                old(self).warnings_view().push(above_root_warning())
            } else {
                old(self).warnings_view()
            },
    {
        let fc = chars_of(file);
        let dir = parent_dir(&fc);
        let base = self.options.get_path("resources.base_path");
        let (link_off, image_off) = match base {
            Some(p) => {
                let pc = chars_of(p.as_str());
                (pc.clone(), pc)
            },
            None => {
                let l = match self.options.get_path("resources.base_path.links") {
                    Some(p) => chars_of(p.as_str()),
                    None => dir.clone(),
                };
                let im = match self.options.get_path("resources.base_path.images") {
                    Some(p) => chars_of(p.as_str()),
                    None => dir,
                };
                (l, im)
            },
        };
        if starts_above(&link_off) || starts_above(&image_off) {
            let ghost w0 = self.warnings_view();
            self.warnings.push("a chapter lies in a directory above the book file".to_string());
            assert(self.warnings_view() =~= w0.push(above_root_warning()));
        }
        let v = rewrite_tokens(tokens, &link_off, &image_off);
        self.push_chapter(number, v, file.to_string());
    }

    /// Adds a parsed chapter given as text, with no file.
    pub fn add_chapter_from_source(&mut self, number: Number, tokens: Vec<Token>)
        requires
            old(self).wf(),
        ensures
            final(self).wf(),
            final(self).chapters_view() == old(self).chapters_view().push((number, tokens_view(tokens@))),
            final(self).filenames_view() == old(self).filenames_view().push(Seq::empty()),
            final(self).opts() == old(self).opts(),
            final(self).formats_view() == old(self).formats_view(),
    {
        self.push_chapter(number, tokens, String::new());
    }

    fn push_chapter(&mut self, number: Number, tokens: Vec<Token>, file: String)
        requires
            old(self).wf(),
        ensures
            final(self).warnings == old(self).warnings,
            final(self).wf(),
            final(self).chapters_view() == old(self).chapters_view().push((number, tokens_view(tokens@))),
            final(self).filenames_view() == old(self).filenames_view().push(file@),
            final(self).opts() == old(self).opts(),
            final(self).formats_view() == old(self).formats_view(),
    {
        let ghost c0 = self.chapters_view();
        let ghost f0 = self.filenames_view();
        self.chapters.push((number, tokens));
        self.filenames.push(file);
        assert(self.chapters_view() =~= c0.push((number, tokens_view(tokens@))));
        assert(self.filenames_view() =~= f0.push(file@));
    }

    pub(crate) fn keep_chapter_template(&mut self, t: ChapterTemplate)
        requires
            old(self).wf(),
            safe_template(t.source_view()),
        ensures
            final(self).wf(),
            final(self).has_chapter_template(),
            final(self).chapter_template_source() == t.source_view(),
            final(self).opts() == old(self).opts(),
            final(self).chapters_view() == old(self).chapters_view(),
            final(self).filenames_view() == old(self).filenames_view(),
            final(self).formats_view() == old(self).formats_view(),
            final(self).cleaner_view() == old(self).cleaner_view(),
    {
        self.chapter_template = Some(t);
    }

    pub(crate) fn chapter_template_ref(&self) -> (r: Option<&ChapterTemplate>)
        requires
            self.wf(),
        ensures
            r is Some == self.has_chapter_template(),
            r matches Some(t) ==> t.source_view() == self.chapter_template_source()
                && safe_template(t.source_view()),
    {
        match &self.chapter_template {
            Some(t) => Some(t),
            None => None,
        }
    }

    /// The number of chapters.
    pub fn len(&self) -> (r: usize)
        ensures
            r == self.chapters_view().len(),
    {
        self.chapters.len()
    }

    /// The numbering of chapter `i`.
    pub fn chapter_number(&self, i: usize) -> (r: Number)
        requires
            i < self.chapters_view().len(),
        ensures
            r == self.chapters_view()[i as int].0,
    {
        self.chapters[i].0
    }

    /// A copy of the tokens of chapter `i`.
    pub fn chapter_tokens(&self, i: usize) -> (r: Vec<Token>)
        requires
            i < self.chapters_view().len(),
        ensures
            tokens_view(r@) == self.chapters_view()[i as int].1,
    {
        let src = &self.chapters[i].1;
        let mut r: Vec<Token> = Vec::new();
        let mut j: usize = 0;
        while j < src.len()
            invariant
                j <= src@.len(),
                src == &self.chapters@[i as int].1,
                r@.len() == j,
                forall|q: int| 0 <= q < j ==> (#[trigger] r@[q])@ == src@[q]@,
            decreases src@.len() - j,
        {
            let t = match &src[j] {
                Token::Text(s) => Token::Text(s.clone()),
                Token::Link(u, x) => Token::Link(u.clone(), x.clone()),
                Token::Image(u, x) => Token::Image(u.clone(), x.clone()),
            };
            r.push(t);
            j = j + 1;
        }
        assert(tokens_view(r@) =~= tokens_view(src@));
        r
    }

    /// The file name of chapter `i`; empty for a chapter given as text.
    pub fn filename(&self, i: usize) -> (r: String)
        requires
            i < self.filenames_view().len(),
        ensures
            r@ == self.filenames_view()[i as int],
    {
        self.filenames[i].clone()
    }

    /// The options of the book.
    pub fn options(&self) -> (r: &BookOptions)
        ensures
            r.view() == self.opts(),
    {
        &self.options
    }

    /// The active cleaning policy.
    pub fn cleaner(&self) -> (r: Cleaner)
        ensures
            r == self.cleaner_view(),
    {
        self.cleaner
    }

    /// The port and language of the active proofreading hook, if any.
    pub fn checker(&self) -> (r: Option<(i64, String)>)
        ensures
            match (r, self.checker_view()) {
                (Some((p, l)), Some((q, m))) => p == q && l@ == m,
                (None, None) => true,
                _ => false,
            },
    {
        match &self.checker {
            Some(c) => Some((c.port, c.lang.clone())),
            None => None,
        }
    }

    /// The warnings gathered so far.
    pub fn warnings(&self) -> (r: Vec<String>)
        ensures
            Seq::new(r@.len(), |i: int| r@[i]@) == self.warnings_view(),
    {
        let mut r: Vec<String> = Vec::new();
        let mut i: usize = 0;
        while i < self.warnings.len()
            invariant
                i <= self.warnings@.len(),
                Seq::new(r@.len(), |k: int| r@[k]@) == self.warnings_view().take(i as int),
            decreases self.warnings@.len() - i,
        {
            let ghost before = Seq::new(r@.len(), |k: int| r@[k]@);
            r.push(self.warnings[i].clone());
            assert(Seq::new(r@.len(), |k: int| r@[k]@) =~= before.push(self.warnings_view()[i as int]));
            assert(self.warnings_view().take(i + 1) =~= self.warnings_view().take(i as int).push(self.warnings_view()[i as int]));
            i = i + 1;
        }
        assert(self.warnings_view().take(i as int) =~= self.warnings_view());
        r
    }

    /// The book's directory, against which chapter files are resolved.
    pub fn root(&self) -> (r: String)
        ensures
            r@ == self.root_view(),
    {
        self.root.clone()
    }

    /// Sets the book's directory.
    pub fn set_root(&mut self, root: &str)
        requires
            old(self).wf(),
        ensures
            final(self).wf(),
            final(self).root_view() == root@,
            final(self).opts() == old(self).opts(),
            final(self).chapters_view() == old(self).chapters_view(),
            final(self).filenames_view() == old(self).filenames_view(),
            final(self).formats_view() == old(self).formats_view(),
    {
        self.root = root.to_string();
    }

    /// The formats that rendering everything produces, in order.
    pub fn render_plan(&self) -> (r: Vec<String>)
        ensures
            strings_view(r@) == render_plan(self.opts()),
    {
        let m = &self.options;
        let mut plan: Vec<String> = Vec::new();
        assert(strings_view(plan@) =~= Seq::empty());
        push_when(&mut plan, m.get("output.pdf").is_some(), "pdf");
        push_when(&mut plan, m.get("output.epub").is_some(), "epub");
        push_when(&mut plan, m.get("output.html_dir").is_some(), "html_dir");
        push_when(&mut plan, m.get("output.odt").is_some(), "odt");
        push_when(&mut plan, m.get("output.html").is_some(), "html");
        push_when(&mut plan, m.get("output.tex").is_some(), "tex");
        assert(strings_view(plan@) =~= Seq::empty() + listed_if(is_set(self.opts(), "output.pdf"@), "pdf"@) + listed_if(is_set(self.opts(), "output.epub"@), "epub"@)
            + listed_if(is_set(self.opts(), "output.html_dir"@), "html_dir"@) + listed_if(is_set(self.opts(), "output.odt"@), "odt"@)
            + listed_if(is_set(self.opts(), "output.html"@), "html"@) + listed_if(is_set(self.opts(), "output.tex"@), "tex"@));
        if self.is_proofread() {
            push_when(&mut plan, m.get("output.proofread.pdf").is_some(), "proofread.pdf");
            push_when(&mut plan, m.get("output.proofread.html_dir").is_some(), "proofread.html_dir");
            push_when(&mut plan, m.get("output.proofread.html").is_some(), "proofread.html");
        }
        assert(strings_view(plan@) =~= render_plan(self.opts()));
        plan
    }
}

} // verus!
