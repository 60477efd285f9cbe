//! The grammar of HTTP signatures and of the headers in them.

use vstd::prelude::*;
use vstd::slice::slice_subrange;
use crate::http::{is_name_char, Header, HeaderView, Signature, SignatureView, Version};
use crate::parse::{
    finish, list_at, list_rest, nonempty_list_at, or_fail_at, reads, whole, ParseError, Step,
};
use crate::text::{
    char_is_ascii_alphanumeric, chars_of, eat, eat_char, find, find_char, has_char, starts_at,
    string_of,
};
use core::str::FromStr;

verus! {

/// The position just past the run of name characters that begins at `i`.
pub open spec fn name_end(s: Seq<char>, i: int) -> int
    decreases s.len() - i,
{
    if 0 <= i < s.len() && is_name_char(s[i]) {
        name_end(s, i + 1)
    } else {
        i
    }
}

/// A name and, where `=[` follows it and a `]` after that, the value between
/// the brackets: the name, the value and the position after them. The name
/// may be empty, and so may the value.
pub open spec fn key_value_at(s: Seq<char>, i: int) -> (Seq<char>, Option<Seq<char>>, int) {
    let j = name_end(s, i);
    let k = find_char(s, j + 2, ']');
    if starts_at(s, j, "=["@) && k < s.len() {
        (s.subrange(i, j), Some(s.subrange(j + 2, k)), k + 1)
    } else {
        (s.subrange(i, j), None, j)
    }
}

/// A header: `?` where it is optional, then its name and value.
pub open spec fn header_at(s: Seq<char>, i: int) -> Step<HeaderView> {
    let optional = has_char(s, i, '?');
    let (name, value, j) = key_value_at(
        s,
        if optional {
            i + 1
        } else {
            i
        },
    );
    Some((HeaderView { optional, name, value }, j))
}

/// The reading of one header, as a list element.
pub open spec fn header_elem() -> spec_fn(Seq<char>, int) -> Step<HeaderView> {
    |s: Seq<char>, i: int| header_at(s, i)
}

/// `0`, `1` or `*`.
pub open spec fn version_at(s: Seq<char>, i: int) -> Step<Version> {
    if has_char(s, i, '0') {
        Some((Version::V10, i + 1))
    } else if has_char(s, i, '1') {
        Some((Version::V11, i + 1))
    } else if has_char(s, i, '*') {
        Some((Version::Any, i + 1))
    } else {
        None
    }
}

/// The headers that must be absent: a list, empty where none stands at `i`.
pub open spec fn absent_at(s: Seq<char>, i: int) -> (Seq<HeaderView>, int) {
    match list_at(header_elem(), s, i) {
        Some(x) => x,
        None => (Seq::empty(), i),
    }
}

/// An HTTP signature at `i`: `version:horder:habsent:expsw`, the second a
/// list of at least one header, the last all the text that is left. On
/// failure, the position at which the grammar was left.
pub open spec fn signature_at(s: Seq<char>, i: int) -> Result<(SignatureView, int), int> {
    match version_at(s, i) {
        None => Err(i),
        Some((version, a)) => if !has_char(s, a, ':') {
            Err(a)
        } else {
            match nonempty_list_at(header_elem(), s, a + 1) {
                None => Err(a + 1),
                Some((horder, b)) => if !has_char(s, b, ':') {
                    Err(b)
                } else {
                    let (habsent, c) = absent_at(s, b + 1);
                    if !has_char(s, c, ':') {
                        Err(c)
                    } else {
                        Ok(
                            (
                                SignatureView {
                                    version,
                                    horder,
                                    habsent,
                                    expsw: s.subrange(c + 1, s.len() as int),
                                },
                                s.len() as int,
                            ),
                        )
                    }
                },
            }
        },
    }
}

/// The header that the whole of `s` is the text form of.
pub open spec fn header_of(s: Seq<char>) -> Result<HeaderView, ParseError> {
    whole(or_fail_at(header_at(s, 0), 0), s.len())
}

/// The signature that the whole of `s` is the text form of.
pub open spec fn signature_of(s: Seq<char>) -> Result<SignatureView, ParseError> {
    whole(signature_at(s, 0), s.len())
}

pub(crate) fn char_is_name(c: char) -> (r: bool)
    ensures
        r == is_name_char(c),
{
    char_is_ascii_alphanumeric(c) || c == '-'
}

pub(crate) fn read_key_value(input: &[char], pos: usize) -> (r: (String, Option<String>, usize))
    requires
        pos <= input.len(),
    ensures
        (r.0@, crate::opt_view(r.1), r.2 as int) == key_value_at(input@, pos as int),
        pos <= r.2 <= input.len(),
{
    let mut j: usize = pos;
    while j < input.len() && char_is_name(input[j])
        invariant
            pos <= j <= input.len(),
            name_end(input@, pos as int) == name_end(input@, j as int),
        decreases input.len() - j,
    {
        j += 1;
    }
    let name = string_of(slice_subrange(input, pos, j));
    proof {
        reveal_strlit("=[");
    }
    if eat(input, j, "=[") {
        let k = find(input, j + 2, ']');
        if k < input.len() {
            let value = string_of(slice_subrange(input, j + 2, k));
            return (name, Some(value), k + 1);
        }
    }
    (name, None, j)
}

pub(crate) fn read_header(input: &[char], pos: usize) -> (r: (Header, usize))
    requires
        pos <= input.len(),
    ensures
        header_at(input@, pos as int) == Some((r.0@, r.1 as int)),
        pos <= r.1 <= input.len(),
{
    let optional = eat_char(input, pos, '?');
    let (name, value, j) = read_key_value(
        input,
        if optional {
            pos + 1
        } else {
            pos
        },
    );
    (Header { optional, name, value }, j)
}

pub(crate) fn read_version(input: &[char], pos: usize) -> (r: Option<(Version, usize)>)
    ensures
        reads(r, version_at(input@, pos as int), input@),
{
    if eat_char(input, pos, '0') {
        Some((Version::V10, pos + 1))
    } else if eat_char(input, pos, '1') {
        Some((Version::V11, pos + 1))
    } else if eat_char(input, pos, '*') {
        Some((Version::Any, pos + 1))
    } else {
        None
    }
}

/// Reads on after the header `first`, which ended at `pos`.
fn read_more_headers(input: &[char], pos: usize, first: Header) -> (r: (Vec<Header>, usize))
    requires
        pos <= input.len(),
    ensures
        (r.0.deep_view(), r.1 as int) == list_rest(
            header_elem(),
            input@,
            pos as int,
            seq![first@],
        ),
        r.1 <= input.len(),
{
    let mut list: Vec<Header> = Vec::new();
    let ghost head = first@;
    list.push(first);
    assert(list.deep_view() =~= seq![head]);
    let mut cur: usize = pos;
    let mut open: bool = true;
    while open
        invariant
            cur <= input.len(),
            list_rest(header_elem(), input@, pos as int, seq![head]) == list_rest(
                header_elem(),
                input@,
                cur as int,
                list.deep_view(),
            ),
            !open ==> list_rest(header_elem(), input@, cur as int, list.deep_view()) == (
                list.deep_view(),
                cur as int,
            ),
        decreases input.len() - cur + if open { 1int } else { 0int },
    {
        if eat_char(input, cur, ',') {
            let (h, j) = read_header(input, cur + 1);
            if j > cur + 1 {
                let ghost before = list.deep_view();
                let ghost hv = h@;
                list.push(h);
                assert(list.deep_view() =~= before.push(hv));
                cur = j;
            } else {
                open = false;
            }
        } else {
            open = false;
        }
    }
    (list, cur)
}

/// Reads the list of headers at `pos`, if one of at least one character
/// stands there.
fn read_headers(input: &[char], pos: usize) -> (r: Option<(Vec<Header>, usize)>)
    requires
        pos <= input.len(),
    ensures
        match r {
            Some((list, j)) => nonempty_list_at(header_elem(), input@, pos as int) == Some(
                (list.deep_view(), j as int),
            ) && j <= input.len(),
            None => nonempty_list_at(header_elem(), input@, pos as int) is None,
        },
        list_at(header_elem(), input@, pos as int) == nonempty_list_at(
            header_elem(),
            input@,
            pos as int,
        ),
{
    let (first, j) = read_header(input, pos);
    if j > pos {
        Some(read_more_headers(input, j, first))
    } else {
        None
    }
}

pub(crate) fn read_signature(input: &[char], pos: usize) -> (r: Result<(Signature, usize), usize>)
    requires
        pos <= input.len(),
    ensures
        match r {
            Ok((sig, j)) => signature_at(input@, pos as int) == Ok::<(SignatureView, int), int>(
                (sig@, j as int),
            ) && j <= input.len(),
            Err(at) => signature_at(input@, pos as int) == Err::<(SignatureView, int), int>(
                at as int,
            ) && at <= input.len(),
        },
{
    let (version, a) = match read_version(input, pos) {
        Some(x) => x,
        None => { return Err(pos); },
    };
    if !eat_char(input, a, ':') {
        return Err(a);
    }
    let (horder, b) = match read_headers(input, a + 1) {
        Some(x) => x,
        None => { return Err(a + 1); },
    };
    if !eat_char(input, b, ':') {
        return Err(b);
    }
    let (habsent, c) = match read_headers(input, b + 1) {
        Some(x) => x,
        None => {
            let none: Vec<Header> = Vec::new();
            assert(none.deep_view() =~= Seq::<HeaderView>::empty());
            (none, b + 1)
        },
    };
    if !eat_char(input, c, ':') {
        return Err(c);
    }
    let expsw = string_of(slice_subrange(input, c + 1, input.len()));
    Ok((Signature { version, horder, habsent, expsw }, input.len()))
}

impl FromStr for Header {
    type Err = ParseError;

    fn from_str(s: &str) -> (r: Result<Header, ParseError>)
        ensures
            match r {
                Ok(h) => header_of(s@) == Ok::<HeaderView, ParseError>(h@) && h@.is_plain()
                    && crate::display::header_text(h@) == s@,
                Err(e) => header_of(s@) == Err::<HeaderView, ParseError>(e),
            },
    {
        proof {
            crate::roundtrip::http::header_read_is_plain(s@);
            crate::roundtrip::http::header_written_as_read(s@);
        }
        let input = chars_of(s);
        finish(Ok(read_header(&input, 0)), input.len())
    }
}

impl FromStr for Signature {
    type Err = ParseError;

    fn from_str(s: &str) -> (r: Result<Signature, ParseError>)
        ensures
            match r {
                Ok(sig) => signature_of(s@) == Ok::<SignatureView, ParseError>(sig@)
                    && sig@.is_plain() && crate::display::http_signature_text(sig@) == s@,
                Err(e) => signature_of(s@) == Err::<SignatureView, ParseError>(e),
            },
    {
        proof {
            crate::roundtrip::http::signature_read_is_plain(s@);
            crate::roundtrip::http::signature_written_as_read(s@);
        }
        let input = chars_of(s);
        finish(read_signature(&input, 0), input.len())
    }
}

} // verus!
