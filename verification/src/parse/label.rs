//! The grammar of labels.

use vstd::prelude::*;
use vstd::slice::slice_subrange;
use crate::parse::{finish, or_fail, or_fail_at, reads, whole, ParseError, Step};
use crate::text::{chars_of, eat_char, find, find_char, has_char, string_of};
use crate::{Label, LabelView, Type};
use core::str::FromStr;

verus! {

/// `s` for a specified label, `g` for a generic one.
pub open spec fn type_at(s: Seq<char>, i: int) -> Step<Type> {
    if has_char(s, i, 's') {
        Some((Type::Specified, i + 1))
    } else if has_char(s, i, 'g') {
        Some((Type::Generic, i + 1))
    } else {
        None
    }
}

/// The class of a label and the position of the colon after it: `!` for no
/// class, else the text up to the next colon.
pub open spec fn class_at(s: Seq<char>, i: int) -> Result<(Option<Seq<char>>, int), int> {
    let k = find_char(s, i, ':');
    if has_char(s, i, '!') {
        if has_char(s, i + 1, ':') {
            Ok((None, i + 1))
        } else {
            Err(i + 1)
        }
    } else if k < s.len() {
        Ok((Some(s.subrange(i, k)), k))
    } else {
        Err(i)
    }
}

/// The flavor that the text `rest` names: none where it is empty.
pub open spec fn flavor_of(rest: Seq<char>) -> Option<Seq<char>> {
    if rest.len() == 0 {
        None
    } else {
        Some(rest)
    }
}

/// A label at `i`: `type:class:name:flavor`, the name free of colons, the
/// flavor all the text that is left. On failure, the position at which the
/// grammar was left.
pub open spec fn label_at(s: Seq<char>, i: int) -> Result<(LabelView, int), int> {
    match type_at(s, i) {
        None => Err(i),
        Some((ty, a)) => if !has_char(s, a, ':') {
            Err(a)
        } else {
            match class_at(s, a + 1) {
                Err(at) => Err(at),
                Ok((class, b)) => {
                    let c = find_char(s, b + 1, ':');
                    if c < s.len() {
                        Ok(
                            (
                                LabelView {
                                    ty,
                                    class,
                                    name: s.subrange(b + 1, c),
                                    flavor: flavor_of(s.subrange(c + 1, s.len() as int)),
                                },
                                s.len() as int,
                            ),
                        )
                    } else {
                        Err(b + 1)
                    }
                },
            }
        },
    }
}

/// The label type that the whole of `s` is the text form of.
pub open spec fn type_of(s: Seq<char>) -> Result<Type, ParseError> {
    whole(or_fail_at(type_at(s, 0), 0), s.len())
}

/// The label that the whole of `s` is the text form of.
pub open spec fn label_of(s: Seq<char>) -> Result<LabelView, ParseError> {
    whole(label_at(s, 0), s.len())
}

pub(crate) fn read_type(input: &[char], pos: usize) -> (r: Option<(Type, usize)>)
    ensures
        reads(r, type_at(input@, pos as int), input@),
{
    if eat_char(input, pos, 's') {
        Some((Type::Specified, pos + 1))
    } else if eat_char(input, pos, 'g') {
        Some((Type::Generic, pos + 1))
    } else {
        None
    }
}

pub(crate) fn read_class(input: &[char], pos: usize) -> (r: Result<(Option<String>, usize), usize>)
    requires
        pos <= input.len(),
    ensures
        match r {
            Ok((class, j)) => class_at(input@, pos as int) == Ok::<(Option<Seq<char>>, int), int>(
                (crate::opt_view(class), j as int),
            ) && j < input.len(),
            Err(at) => class_at(input@, pos as int) == Err::<(Option<Seq<char>>, int), int>(
                at as int,
            ) && at <= input.len(),
        },
{
    if eat_char(input, pos, '!') {
        if eat_char(input, pos + 1, ':') {
            Ok((None, pos + 1))
        } else {
            Err(pos + 1)
        }
    } else {
        let k = find(input, pos, ':');
        if k < input.len() {
            Ok((Some(string_of(slice_subrange(input, pos, k))), k))
        } else {
            Err(pos)
        }
    }
}

pub(crate) fn read_label(input: &[char], pos: usize) -> (r: Result<(Label, usize), usize>)
    requires
        pos <= input.len(),
    ensures
        match r {
            Ok((label, j)) => label_at(input@, pos as int) == Ok::<(LabelView, int), int>(
                (label@, j as int),
            ) && j == input.len(),
            Err(at) => label_at(input@, pos as int) == Err::<(LabelView, int), int>(at as int)
                && at <= input.len(),
        },
{
    let (ty, a) = match read_type(input, pos) {
        Some(x) => x,
        None => { return Err(pos); },
    };
    if !eat_char(input, a, ':') {
        return Err(a);
    }
    let (class, b) = match read_class(input, a + 1) {
        Ok(x) => x,
        Err(at) => { return Err(at); },
    };
    let c = find(input, b + 1, ':');
    if c < input.len() {
        let name = string_of(slice_subrange(input, b + 1, c));
        let flavor = if c + 1 == input.len() {
            None
        } else {
            Some(string_of(slice_subrange(input, c + 1, input.len())))
        };
        Ok((Label { ty, class, name, flavor }, input.len()))
    } else {
        Err(b + 1)
    }
}

impl FromStr for Type {
    type Err = ParseError;

    fn from_str(s: &str) -> (r: Result<Type, ParseError>)
        ensures
            r == type_of(s@),
    {
        let input = chars_of(s);
        finish(or_fail(read_type(&input, 0), 0), input.len())
    }
}

impl FromStr for Label {
    type Err = ParseError;

    fn from_str(s: &str) -> (r: Result<Label, ParseError>)
        ensures
            match r {
                Ok(label) => label_of(s@) == Ok::<LabelView, ParseError>(label@)
                    && label@.is_plain() && crate::display::label_text(label@) == s@,
                Err(e) => label_of(s@) == Err::<LabelView, ParseError>(e),
            },
    {
        proof {
            crate::roundtrip::label::label_read_is_plain(s@);
            crate::roundtrip::label::label_written_as_read(s@);
        }
        let input = chars_of(s);
        finish(read_label(&input, 0), input.len())
    }
}

} // verus!
