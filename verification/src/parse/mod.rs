//! Reading the text forms: what the grammars have in common.

use vstd::prelude::*;
use crate::text::has_char;

pub mod http;
pub mod label;
pub mod tcp;

verus! {

/// Why a text is not the text form of a value. Offsets count characters from
/// the start of the text.
#[derive(Clone, Copy, Debug, PartialEq, Eq)]
pub enum ParseError {
    /// The grammar asks at `offset` for something that does not stand there.
    Malformed { offset: usize },
    /// A value was read, and the text goes on after it, from `offset`.
    Trailing { offset: usize },
}

/// A successful reading: the value and the position after it.
pub type Step<T> = Option<(T, int)>;

/// The rest of a comma-separated list, after an element that ended at `i`.
/// Each further element follows a comma and takes at least one character;
/// the list ends before the first comma that no such element follows. `acc`
/// holds the elements read so far.
pub open spec fn list_rest<T>(
    elem: spec_fn(Seq<char>, int) -> Step<T>,
    s: Seq<char>,
    i: int,
    acc: Seq<T>,
) -> (Seq<T>, int)
    decreases s.len() - i,
{
    if has_char(s, i, ',') {
        match elem(s, i + 1) {
            Some((v, j)) => if i + 1 < j <= s.len() {
                list_rest(elem, s, j, acc.push(v))
            } else {
                (acc, i)
            },
            None => (acc, i),
        }
    } else {
        (acc, i)
    }
}

/// A comma-separated list of one or more elements at `i`.
pub open spec fn nonempty_list_at<T>(
    elem: spec_fn(Seq<char>, int) -> Step<T>,
    s: Seq<char>,
    i: int,
) -> Step<Seq<T>> {
    match elem(s, i) {
        Some((v, j)) => if i < j {
            Some(list_rest(elem, s, j, seq![v]))
        } else {
            None
        },
        None => None,
    }
}

/// A comma-separated list at `i`, empty where no element stands there. An
/// element that takes no character is not one to begin a list with.
pub open spec fn list_at<T>(
    elem: spec_fn(Seq<char>, int) -> Step<T>,
    s: Seq<char>,
    i: int,
) -> Step<Seq<T>> {
    match elem(s, i) {
        Some((v, j)) => if i < j {
            Some(list_rest(elem, s, j, seq![v]))
        } else {
            None
        },
        None => Some((Seq::empty(), i)),
    }
}

/// Whether `r` is what reading `want` from `input` gives: the same value and
/// the same position, or neither.
pub open spec fn reads<T>(r: Option<(T, usize)>, want: Step<T>, input: Seq<char>) -> bool {
    match r {
        Some((v, j)) => want == Some((v, j as int)) && j <= input.len(),
        None => want is None,
    }
}

/// Whether `r` is what reading `want` gives where a failure has its place:
/// the same value and position, or the same place of failure.
pub open spec fn reads_or<T>(
    r: Result<(T, usize), usize>,
    want: Result<(T, int), int>,
    input: Seq<char>,
) -> bool {
    match r {
        Ok((v, j)) => want == Ok::<(T, int), int>((v, j as int)) && j <= input.len(),
        Err(at) => want == Err::<(T, int), int>(at as int) && at <= input.len(),
    }
}

/// The outcome of reading a whole text as one value.
pub open spec fn whole<T>(r: Result<(T, int), int>, len: nat) -> Result<T, ParseError> {
    match r {
        Ok((v, j)) => if j == len {
            Ok(v)
        } else {
            Err(ParseError::Trailing { offset: j as usize })
        },
        Err(at) => Err(ParseError::Malformed { offset: at as usize }),
    }
}

/// A reading that fails at the place where it began.
pub open spec fn or_fail_at<T>(r: Step<T>, at: int) -> Result<(T, int), int> {
    match r {
        Some(x) => Ok(x),
        None => Err(at),
    }
}

/// A reading that fails at `at` where it gave nothing.
pub(crate) fn or_fail<T>(r: Option<(T, usize)>, at: usize) -> (out: Result<(T, usize), usize>)
    ensures
        match r {
            Some(x) => out == Ok::<(T, usize), usize>(x),
            None => out == Err::<(T, usize), usize>(at),
        },
{
    match r {
        Some(x) => Ok(x),
        None => Err(at),
    }
}

/// Turns the reading of a text from its start into the reading of the whole
/// text, which has `len` characters.
pub(crate) fn finish<T>(r: Result<(T, usize), usize>, len: usize) -> (out: Result<T, ParseError>)
    ensures
        match r {
            Ok((v, j)) => if j == len {
                out == Ok::<T, ParseError>(v)
            } else {
                out == Err::<T, ParseError>(ParseError::Trailing { offset: j })
            },
            Err(at) => out == Err::<T, ParseError>(ParseError::Malformed { offset: at }),
        },
{
    match r {
        Ok((v, j)) => if j == len {
            Ok(v)
        } else {
            Err(ParseError::Trailing { offset: j })
        },
        Err(at) => Err(ParseError::Malformed { offset: at }),
    }
}

} // verus!
