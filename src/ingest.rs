//! Chapter ingestion: embedded front-matter blocks, and the offsets that
//! local links and images are rewritten with.
use vstd::prelude::*;
use crate::options::{BookOptions, OptModel, bool_of, path_of, set_spec};
use crate::text::{chars_of, same_chars, string_of, lines_of, slice_of};
use crate::yaml::{ScalarModel, entries_view, single_mapping, load_single_mapping};
use crate::token::{Token, TokenModel, tokens_view};
use crate::book::push_line;

verus! {

/// A line that opens an embedded block, or closes one.
pub open spec fn is_block_open(l: Seq<char>) -> bool {
    l == "---"@
}

pub open spec fn is_block_close(l: Seq<char>) -> bool {
    l == "---"@ || l == "..."@
}

/// The first line from `j` on that closes a block, or the number of lines.
pub open spec fn block_end(lines: Seq<Seq<char>>, j: nat) -> nat
    decreases lines.len() - j,
{
    if j >= lines.len() || is_block_close(lines[j as int]) {
        j
    } else {
        block_end(lines, j + 1)
    }
}

/// Lines `a` to `b` (excluded), each followed by a newline.
pub open spec fn join_lines(lines: Seq<Seq<char>>, a: nat, b: nat) -> Seq<char>
    decreases b - a,
{
    if a >= b || a >= lines.len() {
        Seq::empty()
    } else {
        lines[a as int] + seq!['\n'] + join_lines(lines, a + 1, b)
    }
}

/// Applying the entries of an embedded block: each accepted entry is set,
/// each refused one is passed over.
pub open spec fn apply_lenient(m: Map<Seq<char>, OptModel>, es: Seq<(ScalarModel, ScalarModel)>) -> Map<
    Seq<char>,
    OptModel,
>
    decreases es.len(),
{
    if es.len() == 0 {
        m
    } else {
        match set_spec(m, es[0].0, es[0].1) {
            Some(m2) => apply_lenient(m2, es.drop_first()),
            None => apply_lenient(m, es.drop_first()),
        }
    }
}

/// Whether embedded blocks set options.
pub open spec fn blocks_enabled(m: Map<Seq<char>, OptModel>) -> bool {
    bool_of(m, "input.yaml_blocks"@) == Some(true)
}

/// Chapter content from line `i` on, with the embedded blocks that set
/// options taken out: the content left, and the options after.
pub open spec fn strip_blocks(lines: Seq<Seq<char>>, i: nat, prev_empty: bool, m: Map<Seq<char>, OptModel>) -> (
    Seq<char>,
    Map<Seq<char>, OptModel>,
)
    decreases lines.len() - i via strip_blocks_decreases
{
    if i >= lines.len() {
        (Seq::empty(), m)
    } else if is_block_open(lines[i as int]) && prev_empty {
        let k = block_end(lines, i + 1);
        let block = join_lines(lines, i + 1, k);
        let open = lines[i as int] + seq!['\n'];
        if k >= lines.len() {
            (open + block, m)
        } else {
            let raw = open + block + lines[k as int] + seq!['\n'];
            match single_mapping(block) {
                Some(es) => if blocks_enabled(m) {
                    strip_blocks(lines, k + 1, false, apply_lenient(m, es))
                } else {
                    let (c, m2) = strip_blocks(lines, k + 1, false, m);
                    (raw + c, m2)
                },
                None => {
                    let (c, m2) = strip_blocks(lines, k + 1, false, m);
                    (raw + c, m2)
                },
            }
        }
    } else {
        let (c, m2) = strip_blocks(lines, i + 1, lines[i as int].len() == 0, m);
        (lines[i as int] + seq!['\n'] + c, m2)
    }
}

#[via_fn]
proof fn strip_blocks_decreases(lines: Seq<Seq<char>>, i: nat, prev_empty: bool, m: Map<Seq<char>, OptModel>) {
    lemma_block_end(lines, i + 1);
}

/// What ingesting `content` does before parsing: the content left, and the
/// options after.
pub open spec fn chapter_front(content: Seq<char>, m: Map<Seq<char>, OptModel>) -> (
    Seq<char>,
    Map<Seq<char>, OptModel>,
) {
    strip_blocks(lines_of(content), 0, true, m)
}

pub proof fn lemma_block_end(lines: Seq<Seq<char>>, j: nat)
    ensures
        j <= lines.len() ==> j <= block_end(lines, j) <= lines.len(),
        block_end(lines, j) < lines.len() ==> is_block_close(lines[block_end(lines, j) as int]),
    decreases lines.len() - j,
{
    if !(j >= lines.len() || is_block_close(lines[j as int])) {
        lemma_block_end(lines, j + 1);
    }
}

fn push_all(buf: &mut Vec<char>, l: &Vec<char>)
    ensures
        final(buf)@ == old(buf)@ + l@,
{
    let mut i: usize = 0;
    while i < l.len()
        invariant
            i <= l@.len(),
            buf@ == old(buf)@ + l@.take(i as int),
        decreases l@.len() - i,
    {
        buf.push(l[i]);
        i = i + 1;
        assert(l@.take(i as int) =~= l@.take(i - 1).push(l@[i - 1]));
    }
    assert(l@.take(i as int) =~= l@);
}

/// Applies each entry that the schema accepts; returns how many it refused.
fn set_lenient(opts: &mut BookOptions, es: &Vec<(crate::yaml::YamlValue, crate::yaml::YamlValue)>) -> (r: usize)
    ensures
        final(opts).view() == apply_lenient(old(opts).view(), entries_view(es@)),
{
    let ghost all = entries_view(es@);
    let mut refused: usize = 0;
    let mut i: usize = 0;
    assert(all.skip(0) =~= all);
    while i < es.len()
        invariant
            i <= es@.len(),
            all == entries_view(es@),
            apply_lenient(old(opts).view(), all) == apply_lenient(opts.view(), all.skip(i as int)),
        decreases es@.len() - i,
    {
        assert(all.skip(i as int).drop_first() =~= all.skip(i + 1));
        assert(all.skip(i as int)[0] == all[i as int]);
        if opts.set_yaml(&es[i].0, &es[i].1).is_err() {
            if refused < usize::MAX {
                refused = refused + 1;
            }
        }
        i = i + 1;
    }
    assert(all.skip(i as int) =~= Seq::<(ScalarModel, ScalarModel)>::empty());
    refused
}

/// Takes the embedded blocks out of chapter lines, applying to `opts` those
/// that set options; returns the content left and how many entries were refused.
pub(crate) fn strip_embedded(opts: &mut BookOptions, lines: &Vec<Vec<char>>) -> (r: (Vec<char>, usize))
    ensures
        (r.0@, final(opts).view()) == strip_blocks(
            Seq::new(lines@.len(), |k: int| lines@[k]@),
            0,
            true,
            old(opts).view(),
        ),
{
    let ghost ls = Seq::new(lines@.len(), |k: int| lines@[k]@);
    let dashes = chars_of("---");
    let dots = chars_of("...");
    let mut out: Vec<char> = Vec::new();
    let mut refused: usize = 0;
    let mut prev_empty = true;
    let mut i: usize = 0;
    while i < lines.len()
        invariant
            i <= lines@.len(),
            ls == Seq::new(lines@.len(), |k: int| lines@[k]@),
            dashes@ == "---"@,
            dots@ == "..."@,
            strip_blocks(ls, 0, true, old(opts).view()) == (
                out@ + strip_blocks(ls, i as nat, prev_empty, opts.view()).0,
                strip_blocks(ls, i as nat, prev_empty, opts.view()).1,
            ),
        decreases lines@.len() - i,
    {
        let ghost m = opts.view();
        let ghost out0 = out@;
        if prev_empty && same_chars(&lines[i], &dashes) {
            let mut block: Vec<char> = Vec::new();
            let mut k: usize = i + 1;
            proof {
                lemma_block_end(ls, (i + 1) as nat);
            }
            while k < lines.len() && !(same_chars(&lines[k], &dashes) || same_chars(&lines[k], &dots))
                invariant
                    i + 1 <= k <= lines@.len(),
                    ls == Seq::new(lines@.len(), |q: int| lines@[q]@),
                    dashes@ == "---"@,
                    dots@ == "..."@,
                    block_end(ls, (i + 1) as nat) == block_end(ls, k as nat),
                    join_lines(ls, (i + 1) as nat, block_end(ls, k as nat)) == block@ + join_lines(ls, k as nat, block_end(ls, k as nat)),
                decreases lines@.len() - k,
            {
                let ghost b0 = block@;
                push_line(&mut block, &lines[k]);
                proof {
                    lemma_block_end(ls, (k + 1) as nat);
                    let e = block_end(ls, k as nat);
                    assert(join_lines(ls, k as nat, e) == ls[k as int] + seq!['\n'] + join_lines(ls, (k + 1) as nat, e));
                    assert(b0 + (ls[k as int] + seq!['\n'] + join_lines(ls, (k + 1) as nat, e)) =~= block@ + join_lines(ls, (k + 1) as nat, e));
                }
                k = k + 1;
            }
            proof {
                assert(block_end(ls, k as nat) == k);
                assert(join_lines(ls, k as nat, k as nat) == Seq::<char>::empty());
                assert(block@ + Seq::<char>::empty() =~= block@);
            }
            let mut raw: Vec<char> = Vec::new();
            push_line(&mut raw, &lines[i]);
            push_all(&mut raw, &block);
            if k >= lines.len() {
                push_all(&mut out, &raw);
                proof {
                    assert(strip_blocks(ls, (k) as nat, false, m) == (Seq::<char>::empty(), m));
                    assert(out@ + Seq::<char>::empty() =~= out@);
                    assert(out0 + (ls[i as int] + seq!['\n'] + block@) =~= out@);
                }
                i = k;
                prev_empty = false;
            } else {
                let text = string_of(block.as_slice());
                let parsed = load_single_mapping(text.as_str());
                let enabled = opts.get_bool("input.yaml_blocks") == Some(true);
                let take = match &parsed {
                    Some(_) => enabled,
                    None => false,
                };
                if take {
                    match &parsed {
                        Some(es) => {
                            let n = set_lenient(opts, es);
                            if refused < usize::MAX - n {
                                refused = refused + n;
                            }
                        },
                        None => {},
                    }
                } else {
                    push_line(&mut raw, &lines[k]);
                    let ghost before = out@;
                    push_all(&mut out, &raw);
                    proof {
                        let c = strip_blocks(ls, (k + 1) as nat, false, m).0;
                        assert(before + (raw@ + c) =~= out@ + c);
                    }
                }
                i = k + 1;
                prev_empty = false;
            }
        } else {
            let ghost l = lines@[i as int]@;
            prev_empty = lines[i].len() == 0;
            push_line(&mut out, &lines[i]);
            proof {
                let c = strip_blocks(ls, (i + 1) as nat, prev_empty, m).0;
                assert(out0 + (l + seq!['\n'] + c) =~= out@ + c);
            }
            i = i + 1;
        }
    }
    assert(out@ + Seq::<char>::empty() =~= out@);
    (out, refused)
}

/// The index of the last `'/'` of `f`, or -1.
pub open spec fn last_slash(f: Seq<char>) -> int
    decreases f.len(),
{
    if f.len() == 0 {
        -1
    } else if f.last() == '/' {
        f.len() - 1
    } else {
        last_slash(f.drop_last())
    }
}

/// The directory part of a chapter's file name: what comes before its last `'/'`.
pub open spec fn parent_of(f: Seq<char>) -> Seq<char> {
    let k = last_slash(f);
    if k < 0 {
        Seq::empty()
    } else {
        f.take(k)
    }
}

/// A reference with a scheme (`"://"`), which is not local.
pub open spec fn has_scheme(u: Seq<char>) -> bool {
    exists|i: int| 0 <= i && i + 2 < u.len() && #[trigger] u[i] == ':' && u[i + 1] == '/' && u[i + 2] == '/'
}

/// `u` taken relative to the directory `off`.
pub open spec fn join_path(off: Seq<char>, u: Seq<char>) -> Seq<char> {
    if off.len() == 0 || (u.len() > 0 && u[0] == '/') {
        u
    } else if off.last() == '/' {
        off + u
    } else {
        off + seq!['/'] + u
    }
}

/// A token with its local link or image reference rewritten.
pub open spec fn rewrite_token(t: TokenModel, link_off: Seq<char>, image_off: Seq<char>) -> TokenModel {
    match t {
        TokenModel::Link(u, x) => if has_scheme(u) || (u.len() > 0 && u[0] == '#') {
            t
        } else {
            TokenModel::Link(join_path(link_off, u), x)
        },
        TokenModel::Image(u, x) => if has_scheme(u) {
            t
        } else {
            TokenModel::Image(join_path(image_off, u), x)
        },
        TokenModel::Text(_) => t,
    }
}

pub open spec fn rewrite_all(ts: Seq<TokenModel>, link_off: Seq<char>, image_off: Seq<char>) -> Seq<TokenModel> {
    Seq::new(ts.len(), |i: int| rewrite_token(ts[i], link_off, image_off))
}

/// The offset of local links in the chapter at `file`: the unified base
/// path, else the links' base path, else the chapter's directory.
pub open spec fn link_offset(m: Map<Seq<char>, OptModel>, file: Seq<char>) -> Seq<char> {
    match path_of(m, "resources.base_path"@) {
        Some(p) => p,
        None => match path_of(m, "resources.base_path.links"@) {
            Some(p) => p,
            None => parent_of(file),
        },
    }
}

/// The offset of local images in the chapter at `file`.
pub open spec fn image_offset(m: Map<Seq<char>, OptModel>, file: Seq<char>) -> Seq<char> {
    match path_of(m, "resources.base_path"@) {
        Some(p) => p,
        None => match path_of(m, "resources.base_path.images"@) {
            Some(p) => p,
            None => parent_of(file),
        },
    }
}

/// An offset whose first component is `..`: it leaves the book's directory.
pub open spec fn escapes_root(off: Seq<char>) -> bool {
    off.len() >= 2 && off[0] == '.' && off[1] == '.' && (off.len() == 2 || off[2] == '/')
}

/// The directory part of `f`.
pub fn parent_dir(f: &Vec<char>) -> (r: Vec<char>)
    ensures
        r@ == parent_of(f@),
{
    let mut k: usize = f.len();
    assert(f@.take(k as int) =~= f@);
    while k > 0 && f[k - 1] != '/'
        invariant
            k <= f@.len(),
            last_slash(f@) == last_slash(f@.take(k as int)),
        decreases k,
    {
        assert(f@.take(k as int).drop_last() =~= f@.take(k - 1));
        k = k - 1;
    }
    if k == 0 {
        assert(f@.take(0) =~= Seq::<char>::empty());
        Vec::new()
    } else {
        slice_of(f, 0, k - 1)
    }
}

fn scheme_in(u: &Vec<char>) -> (r: bool)
    ensures
        r == has_scheme(u@),
{
    let mut i: usize = 0;
    while u.len() >= 3 && i < u.len() - 2
        invariant
            forall|j: int| 0 <= j < i && j + 2 < u@.len() ==> !(#[trigger] u@[j] == ':' && u@[j + 1] == '/' && u@[j + 2] == '/'),
        decreases u@.len() - i,
    {
        if u[i] == ':' && u[i + 1] == '/' && u[i + 2] == '/' {
            return true;
        }
        i = i + 1;
    }
    false
}

/// `u` taken relative to `off`.
pub fn join_to(off: &Vec<char>, u: &Vec<char>) -> (r: Vec<char>)
    ensures
        r@ == join_path(off@, u@),
{
    if off.len() == 0 || (u.len() > 0 && u[0] == '/') {
        return u.clone();
    }
    let mut r = off.clone();
    if off[off.len() - 1] != '/' {
        r.push('/');
    }
    push_all(&mut r, u);
    r
}

/// Rewrites every local link and image reference of `ts`.
pub fn rewrite_tokens(ts: &Vec<Token>, link_off: &Vec<char>, image_off: &Vec<char>) -> (r: Vec<Token>)
    ensures
        tokens_view(r@) == rewrite_all(tokens_view(ts@), link_off@, image_off@),
{
    let mut r: Vec<Token> = Vec::new();
    let mut i: usize = 0;
    while i < ts.len()
        invariant
            i <= ts@.len(),
            r@.len() == i,
            forall|j: int| 0 <= j < i ==> (#[trigger] r@[j])@ == rewrite_token(ts@[j]@, link_off@, image_off@),
        decreases ts@.len() - i,
    {
        let t = match &ts[i] {
            Token::Text(s) => Token::Text(s.clone()),
            Token::Link(u, x) => {
                let uc = chars_of(u.as_str());
                if scheme_in(&uc) || (uc.len() > 0 && uc[0] == '#') {
                    Token::Link(u.clone(), x.clone())
                } else {
                    let j = join_to(link_off, &uc);
                    Token::Link(string_of(j.as_slice()), x.clone())
                }
            },
            Token::Image(u, x) => {
                let uc = chars_of(u.as_str());
                if scheme_in(&uc) {
                    Token::Image(u.clone(), x.clone())
                } else {
                    let j = join_to(image_off, &uc);
                    Token::Image(string_of(j.as_slice()), x.clone())
                }
            },
        };
        r.push(t);
        i = i + 1;
    }
    assert(tokens_view(r@) =~= rewrite_all(tokens_view(ts@), link_off@, image_off@));
    r
}

} // verus!
