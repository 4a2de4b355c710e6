//! Properties that relate several operations of the library.
use vstd::prelude::*;
use crate::book::{Book, scan_front, continues, load_spec, flush_spec, render_plan, is_set, front_matter};
use crate::yaml::starts_with_mapping;
use crate::text::lines_of;
use crate::error::ErrorKind;
use crate::ingest::{link_offset, image_offset, rewrite_token, has_scheme};
use crate::options::{OptModel, apply_entries, kind_of, path_of, set_spec};
use crate::token::TokenModel;
use crate::yaml::{ScalarModel, single_mapping};

verus! {

/// A front-matter line whose value goes on over the next lines is never
/// applied on its own: the scan takes the next line into the same document.
pub proof fn law_continuation_not_split(
    lines: Seq<Seq<char>>,
    end: nat,
    i: nat,
    buf: Seq<char>,
    m: Map<Seq<char>, OptModel>,
)
    requires
        i < end,
        i < lines.len(),
        continues(lines[i as int]),
    ensures
        scan_front(lines, end, i, buf, m) == scan_front(
            lines,
            end,
            i + 1,
            buf + lines[i as int] + seq!['\n'],
            m,
        ),
{
}

/// A key that the schema does not know, anywhere in a mapping, makes
/// applying that mapping fail.
pub proof fn law_unknown_key_refused(
    m: Map<Seq<char>, OptModel>,
    es: Seq<(ScalarModel, ScalarModel)>,
    j: int,
    k: Seq<char>,
)
    requires
        0 <= j < es.len(),
        es[j].0 == ScalarModel::Str(k),
        kind_of(k) is None,
    ensures
        !apply_entries(m, es).1,
    decreases es.len(),
{
    if j == 0 {
        assert(set_spec(m, es[0].0, es[0].1) is None);
    } else {
        match set_spec(m, es[0].0, es[0].1) {
            Some(m2) => {
                assert(es.drop_first()[j - 1] == es[j]);
                law_unknown_key_refused(m2, es.drop_first(), j - 1, k);
            },
            None => {},
        }
    }
}

/// A front-matter document with an unknown key is a schema error, and a
/// schema error found while scanning the front matter ends the load with
/// that error.
pub proof fn law_unknown_key_aborts(
    m: Map<Seq<char>, OptModel>,
    buf: Seq<char>,
    j: int,
    k: Seq<char>,
)
    requires
        single_mapping(buf) is Some,
        0 <= j < single_mapping(buf)->0.len(),
        single_mapping(buf)->0[j].0 == ScalarModel::Str(k),
        kind_of(k) is None,
    ensures
        flush_spec(m, buf).1 == Some(ErrorKind::BookOption),
{
    law_unknown_key_refused(m, single_mapping(buf)->0, j, k);
}

/// With a unified resources base path set, local links and images are
/// rewritten against it, wherever the chapter lies.
pub proof fn law_base_path_overrides(m: Map<Seq<char>, OptModel>, file: Seq<char>, p: Seq<char>)
    requires
        path_of(m, "resources.base_path"@) == Some(p),
    ensures
        link_offset(m, file) == p,
        image_offset(m, file) == p,
{
}

/// A local image reference is prefixed with the image offset.
pub proof fn law_local_image_rewritten(u: Seq<char>, x: Seq<char>, lo: Seq<char>, io: Seq<char>)
    requires
        !has_scheme(u),
        io.len() > 0,
        io.last() != '/',
        u.len() > 0,
        u[0] != '/',
    ensures
        rewrite_token(TokenModel::Image(u, x), lo, io) == TokenModel::Image(io + seq!['/'] + u, x),
{
}

/// Registering a format under a key that is taken replaces its entry and
/// adds no other.
pub proof fn law_reregister_replaces(f: Map<Seq<char>, Seq<char>>, k: Seq<char>, d1: Seq<char>, d2: Seq<char>)
    ensures
        f.insert(k, d1).insert(k, d2) == f.insert(k, d2),
        f.insert(k, d1).insert(k, d2).dom() == f.insert(k, d1).dom(),
{
    assert(f.insert(k, d1).insert(k, d2) =~= f.insert(k, d2));
    assert(f.insert(k, d1).insert(k, d2).dom() =~= f.insert(k, d1).dom());
}

/// With no output option set, rendering everything renders nothing.
pub proof fn law_no_output_no_render(m: Map<Seq<char>, OptModel>)
    requires
        !is_set(m, "output.pdf"@),
        !is_set(m, "output.epub"@),
        !is_set(m, "output.html_dir"@),
        !is_set(m, "output.odt"@),
        !is_set(m, "output.html"@),
        !is_set(m, "output.tex"@),
        !is_set(m, "output.proofread.pdf"@),
        !is_set(m, "output.proofread.html_dir"@),
        !is_set(m, "output.proofread.html"@),
    ensures
        render_plan(m).len() == 0,
{
}

/// Loading one configuration into two books with the same options gives
/// the same options and the same chapter directives.
pub proof fn law_load_deterministic(s: Seq<char>, b1: Book, b2: Book, c1: Book, c2: Book)
    requires
        b1.opts() == b2.opts(),
        c1.opts() == load_spec(s, b1.opts()).0,
        c2.opts() == load_spec(s, b2.opts()).0,
        c1.chapters_view() == b1.chapters_view(),
        c2.chapters_view() == b2.chapters_view(),
        b1.chapters_view() == b2.chapters_view(),
    ensures
        c1.opts() == c2.opts(),
        c1.chapters_view() == c2.chapters_view(),
        load_spec(s, b1.opts()).1 == load_spec(s, b2.opts()).1,
{
}

/// Where the lookahead closes a front-matter document and applying it hits
/// a schema error, the scan stops there with that error.
pub proof fn law_scan_stops_on_schema_error(
    lines: Seq<Seq<char>>,
    end: nat,
    i: nat,
    buf: Seq<char>,
    m: Map<Seq<char>, OptModel>,
)
    requires
        i < end,
        i + 1 < lines.len(),
        !continues(lines[i as int]),
        starts_with_mapping(lines[i + 1 as int]),
        flush_spec(m, buf + lines[i as int] + seq!['\n']).1 == Some(ErrorKind::BookOption),
    ensures
        scan_front(lines, end, i, buf, m) == (
            flush_spec(m, buf + lines[i as int] + seq!['\n']).0,
            buf + lines[i as int] + seq!['\n'],
            Some(ErrorKind::BookOption),
        ),
{
}

/// A schema error in the front matter ends the load with that error,
/// before any chapter directive is read.
pub proof fn law_schema_error_ends_load(s: Seq<char>, m: Map<Seq<char>, OptModel>)
    requires
        front_matter(lines_of(s), m).1 == Some(ErrorKind::BookOption),
    ensures
        load_spec(s, m).1 == Err::<Seq<(crate::directive::Number, Seq<char>)>, ErrorKind>(ErrorKind::BookOption),
{
}

} // verus!
