//! The chapter-list grammar: one line names one chapter and how it is numbered.
use vstd::prelude::*;
use crate::text::{has_ws, trim, contains_ws, trim_chars, slice_of};

verus! {

/// How a chapter is numbered.
#[derive(Clone, Copy, Debug, PartialEq, Eq, Structural)]
pub enum Number {
    /// Not numbered.
    Unnumbered,
    /// Numbered automatically, in document order.
    Default,
    /// Numbered, with its title hidden.
    Hidden,
    /// Numbered with the given number.
    Specified(i32),
}

/// Why a chapter directive was refused.
#[derive(Clone, Copy, Debug, PartialEq, Eq, Structural)]
pub enum DirectiveError {
    /// The directive names no file.
    NoName,
    /// The file name holds whitespace.
    Whitespace,
    /// A number with no delimiter after it.
    IllFormatted,
    /// The number is not a valid `i32`.
    BadNumber,
    /// The line starts with none of the markers.
    Invalid,
}

pub open spec fn is_digit(c: char) -> bool {
    '0' <= c && c <= '9'
}

pub open spec fn is_delim(c: char) -> bool {
    c == '.' || c == ':' || c == '+'
}

/// Whether a line of the configuration starts the chapter list.
pub open spec fn is_marker(c: char) -> bool {
    c == '-' || c == '+' || c == '!' || is_digit(c)
}

pub open spec fn all_digits(s: Seq<char>) -> bool {
    forall|i: int| 0 <= i < s.len() ==> is_digit(#[trigger] s[i])
}

/// The decimal value of a string of digits.
pub open spec fn digits_value(s: Seq<char>) -> nat
    decreases s.len(),
{
    if s.len() == 0 {
        0
    } else {
        10 * digits_value(s.drop_last()) + ((s.last() as nat) - ('0' as nat)) as nat
    }
}

/// The file name that follows a marker: one word, no whitespace in it.
pub open spec fn filename_of(s: Seq<char>) -> Result<Seq<char>, DirectiveError> {
    let t = trim(s);
    if t.len() == 0 {
        Err(DirectiveError::NoName)
    } else if has_ws(t) {
        Err(DirectiveError::Whitespace)
    } else {
        Ok(t)
    }
}

/// Index of the first delimiter of a numbered directive, if there is one.
pub open spec fn first_delim(s: Seq<char>) -> Option<int> {
    if exists|i: int| 0 <= i < s.len() && is_delim(#[trigger] s[i]) {
        Some(choose|i: int| 0 <= i < s.len() && is_delim(s[i]) && (forall|j: int| 0 <= j < i ==> !is_delim(#[trigger] s[j])))
    } else {
        None
    }
}

/// What a trimmed, non-empty chapter-list line means.
pub open spec fn directive_of(l: Seq<char>) -> Result<(Number, Seq<char>), DirectiveError> {
    if l.len() == 0 {
        Err(DirectiveError::Invalid)
    } else if l[0] == '-' {
        match filename_of(l.skip(1)) { Ok(f) => Ok((Number::Unnumbered, f)), Err(e) => Err(e) }
    } else if l[0] == '+' {
        match filename_of(l.skip(1)) { Ok(f) => Ok((Number::Default, f)), Err(e) => Err(e) }
    } else if l[0] == '!' {
        match filename_of(l.skip(1)) { Ok(f) => Ok((Number::Hidden, f)), Err(e) => Err(e) }
    } else if is_digit(l[0]) {
        match first_delim(l) {
            None => Err(DirectiveError::IllFormatted),
            Some(d) => match filename_of(l.skip(d + 1)) {
                Err(e) => Err(e),
                Ok(f) => {
                    let n = l.take(d);
                    if all_digits(n) && digits_value(n) <= i32::MAX {
                        Ok((Number::Specified(digits_value(n) as i32), f))
                    } else {
                        Err(DirectiveError::BadNumber)
                    }
                },
            },
        }
    } else {
        Err(DirectiveError::Invalid)
    }
}

/// Reads the file name that follows a marker.
pub fn parse_filename(s: &Vec<char>) -> (r: Result<Vec<char>, DirectiveError>)
    ensures
        match (r, filename_of(s@)) {
            (Ok(f), Ok(g)) => f@ == g,
            (Err(e), Err(g)) => e == g,
            _ => false,
        },
{
    let t = trim_chars(s);
    if t.len() == 0 {
        Err(DirectiveError::NoName)
    } else if contains_ws(&t) {
        Err(DirectiveError::Whitespace)
    } else {
        Ok(t)
    }
}

/// The value of `s` as an `i32`, where `s` is all digits and the value fits.
pub fn parse_number(s: &Vec<char>) -> (r: Option<i32>)
    ensures
        match r {
            Some(v) => all_digits(s@) && digits_value(s@) <= i32::MAX && v == digits_value(s@),
            None => !(all_digits(s@) && digits_value(s@) <= i32::MAX),
        },
{
    let mut v: i64 = 0;
    let mut over = false;
    let mut i: usize = 0;
    while i < s.len()
        invariant
            i <= s@.len(),
            all_digits(s@.take(i as int)),
            over ==> digits_value(s@.take(i as int)) > i32::MAX,
            !over ==> v == digits_value(s@.take(i as int)) && v <= i32::MAX,
        decreases s@.len() - i,
    {
        let c = s[i];
        if !('0' <= c && c <= '9') {
            assert(!all_digits(s@)) by {
                assert(!is_digit(s@[i as int]));
            }
            return None;
        }
        let ghost prev = s@.take(i as int);
        let ghost next = s@.take(i + 1);
        assert(next.drop_last() =~= prev);
        assert(next.last() == c);
        let d = (c as u32 - '0' as u32) as i64;
        if !over {
            v = v * 10 + d;
            if v > 2147483647 {
                over = true;
            }
        } else {
            assert(digits_value(next) >= digits_value(prev)) by (nonlinear_arith)
                requires
                    digits_value(next) == 10 * digits_value(prev) + ((c as nat) - ('0' as nat)) as nat,
            ;
        }
        assert(all_digits(next)) by {
            assert forall|j: int| 0 <= j < next.len() implies is_digit(#[trigger] next[j]) by {
                if j < i {
                    assert(next[j] == prev[j]);
                }
            }
        }
        i = i + 1;
    }
    assert(s@.take(i as int) =~= s@);
    if over {
        None
    } else {
        Some(v as i32)
    }
}

/// Reads one chapter-list line, already trimmed and not empty.
pub fn parse_directive(l: &Vec<char>) -> (r: Result<(Number, Vec<char>), DirectiveError>)
    ensures
        match (r, directive_of(l@)) {
            (Ok((n, f)), Ok((m, g))) => n == m && f@ == g,
            (Err(e), Err(g)) => e == g,
            _ => false,
        },
{
    if l.len() == 0 {
        return Err(DirectiveError::Invalid);
    }
    let c = l[0];
    if c == '-' || c == '+' || c == '!' {
        let rest = slice_of(l, 1, l.len());
        assert(rest@ =~= l@.skip(1));
        let f = parse_filename(&rest);
        match f {
            Err(e) => Err(e),
            Ok(f) => {
                let n = if c == '-' {
                    Number::Unnumbered
                } else if c == '+' {
                    Number::Default
                } else {
                    Number::Hidden
                };
                Ok((n, f))
            },
        }
    } else if '0' <= c && c <= '9' {
        let mut d: usize = 0;
        while d < l.len() && !(l[d] == '.' || l[d] == ':' || l[d] == '+')
            invariant
                d <= l@.len(),
                forall|j: int| 0 <= j < d ==> !is_delim(#[trigger] l@[j]),
            decreases l@.len() - d,
        {
            d = d + 1;
        }
        if d == l.len() {
            assert(!exists|i: int| 0 <= i < l@.len() && is_delim(#[trigger] l@[i]));
            return Err(DirectiveError::IllFormatted);
        }
        proof {
            let k = d as int;
            assert(0 <= k < l@.len() && is_delim(l@[k]));
            let ch = first_delim(l@)->0;
            assert(ch == k) by {
                if ch < k {
                    assert(!is_delim(l@[ch]));
                } else if ch > k {
                    assert(!is_delim(l@[k]));
                }
            }
        }
        let rest = slice_of(l, d + 1, l.len());
        assert(rest@ =~= l@.skip(d + 1));
        match parse_filename(&rest) {
            Err(e) => Err(e),
            Ok(f) => {
                let head = slice_of(l, 0, d);
                assert(head@ =~= l@.take(d as int));
                match parse_number(&head) {
                    Some(n) => Ok((Number::Specified(n), f)),
                    None => Err(DirectiveError::BadNumber),
                }
            },
        }
    } else {
        Err(DirectiveError::Invalid)
    }
}

} // verus!
