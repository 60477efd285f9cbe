//! Reading what was written gives back what was there: the text forms and
//! the grammars are inverse to each other.

use vstd::prelude::*;
use crate::display::joined;
use crate::parse::{list_at, list_rest, nonempty_list_at, Step};
use crate::text::{
    decimal, decimal_value, digit_char, digit_value, digits_end, find_char, has_char, is_digit,
    is_free_of, number_at, starts_at,
};

pub mod http;
pub mod label;
pub mod tcp;

verus! {

/// Where two texts stand one after the other, each stands in its place.
pub(crate) proof fn lemma_starts_at_split(s: Seq<char>, i: int, a: Seq<char>, b: Seq<char>)
    requires
        starts_at(s, i, a + b),
    ensures
        starts_at(s, i, a),
        starts_at(s, i + a.len(), b),
{
    let whole = s.subrange(i, i + (a + b).len());
    assert(s.subrange(i, i + a.len()) =~= whole.subrange(0, a.len() as int));
    assert(whole.subrange(0, a.len() as int) =~= a);
    assert(s.subrange(i + a.len(), i + a.len() + b.len()) =~= whole.subrange(
        a.len() as int,
        (a + b).len() as int,
    ));
    assert(whole.subrange(a.len() as int, (a + b).len() as int) =~= b);
}

/// A text of one character stands where that character stands.
pub(crate) proof fn lemma_starts_at_char(s: Seq<char>, i: int, lit: Seq<char>)
    requires
        starts_at(s, i, lit),
        lit.len() == 1,
    ensures
        has_char(s, i, lit[0]),
{
    assert(s.subrange(i, i + 1)[0] == s[i]);
}

/// A run of digits that something else follows ends where it does.
pub(crate) proof fn lemma_digits_end(s: Seq<char>, i: int, j: int)
    requires
        0 <= i <= j <= s.len(),
        forall|k: int| i <= k < j ==> is_digit(#[trigger] s[k]),
        j < s.len() ==> !is_digit(s[j]),
    ensures
        digits_end(s, i) == j,
    decreases j - i,
{
    if i < j {
        lemma_digits_end(s, i + 1, j);
    }
}

/// The decimal form of a number is made of digits, at least one, and
/// denotes the number.
pub(crate) proof fn lemma_decimal(n: nat)
    ensures
        decimal(n).len() > 0,
        forall|k: int| 0 <= k < decimal(n).len() ==> is_digit(#[trigger] decimal(n)[k]),
        decimal_value(decimal(n)) == n,
    decreases n,
{
    if n < 10 {
        let d = decimal(n);
        assert(d.len() == 1);
        assert(d.drop_last() =~= Seq::<char>::empty());
        assert(decimal_value(d.drop_last()) == 0);
        assert(d.last() == digit_char(n));
        assert(digit_value(digit_char(n)) == n);
    } else {
        lemma_decimal(n / 10);
        let d = decimal(n);
        let front = decimal(n / 10);
        assert(d.drop_last() =~= front);
        assert(d.last() == digit_char(n % 10));
        assert(digit_value(digit_char(n % 10)) == n % 10);
        assert forall|k: int| 0 <= k < d.len() implies is_digit(#[trigger] d[k]) by {
            if k < front.len() {
                assert(d[k] == front[k]);
            }
        }
    }
}

/// A number is read from its decimal form, where no digit follows it.
pub(crate) proof fn lemma_number_at(s: Seq<char>, i: int, n: nat, max: nat)
    requires
        starts_at(s, i, decimal(n)),
        n <= max,
        !(i + decimal(n).len() < s.len() && is_digit(s[i + decimal(n).len()])),
    ensures
        number_at(s, i, max) == Some((n, i + decimal(n).len())),
{
    lemma_decimal(n);
    let d = decimal(n);
    let j = i + d.len();
    assert forall|k: int| i <= k < j implies is_digit(#[trigger] s[k]) by {
        assert(s[k] == s.subrange(i, j)[k - i]);
        assert(is_digit(d[k - i]));
    }
    lemma_digits_end(s, i, j);
}

/// Whether an element of a list may end before position `j`: the text
/// ends there, or a comma or a colon stands there.
pub open spec fn ends_item(s: Seq<char>, j: int) -> bool {
    j == s.len() || has_char(s, j, ',') || has_char(s, j, ':')
}

/// Whether `elem` reads `v` back wherever in `s` the text form of `v`
/// stands and ends: the form is not empty, and reading takes all of it.
pub open spec fn reads_back<T>(
    elem: spec_fn(Seq<char>, int) -> Step<T>,
    text: spec_fn(T) -> Seq<char>,
    s: Seq<char>,
    v: T,
) -> bool {
    &&& text(v).len() > 0
    &&& forall|p: int|
        starts_at(s, p, text(v)) && ends_item(s, p + text(v).len()) ==> #[trigger] elem(s, p)
            == Some((v, p + text(v).len()))
}

/// The text forms of `items`, each after a comma.
pub open spec fn each_after_comma<T>(items: Seq<T>, text: spec_fn(T) -> Seq<char>) -> Seq<char>
    decreases items.len(),
{
    if items.len() == 0 {
        Seq::empty()
    } else {
        ","@ + text(items[0]) + each_after_comma(items.drop_first(), text)
    }
}

/// The last of some items comes last in their text.
proof fn lemma_each_after_comma_last<T>(items: Seq<T>, text: spec_fn(T) -> Seq<char>)
    requires
        items.len() > 0,
    ensures
        each_after_comma(items, text) == each_after_comma(items.drop_last(), text) + ","@ + text(
            items.last(),
        ),
    decreases items.len(),
{
    if items.len() == 1 {
        assert(items.drop_first() =~= Seq::<T>::empty());
        assert(items.drop_last() =~= Seq::<T>::empty());
        assert(each_after_comma(items, text) =~= each_after_comma(items.drop_last(), text) + ","@
            + text(items.last()));
    } else {
        let rest = items.drop_first();
        lemma_each_after_comma_last(rest, text);
        assert(rest.drop_last() =~= items.drop_last().drop_first());
        assert(rest.last() == items.last());
        assert(items.drop_last()[0] == items[0]);
        assert(each_after_comma(items, text) =~= each_after_comma(items.drop_last(), text) + ","@
            + text(items.last()));
    }
}

/// A list joined by commas is its first item and the others, each after a
/// comma.
pub(crate) proof fn lemma_joined_first<T>(items: Seq<T>, text: spec_fn(T) -> Seq<char>)
    requires
        items.len() > 0,
    ensures
        joined(items, text) == text(items[0]) + each_after_comma(items.drop_first(), text),
    decreases items.len(),
{
    if items.len() == 1 {
        assert(items.drop_first() =~= Seq::<T>::empty());
        assert(joined(items, text) =~= text(items[0]) + each_after_comma(
            items.drop_first(),
            text,
        ));
    } else {
        let front = items.drop_last();
        lemma_joined_first(front, text);
        lemma_each_after_comma_last(items.drop_first(), text);
        assert(items.drop_first().drop_last() =~= front.drop_first());
        assert(front[0] == items[0]);
        assert(items.drop_first().last() == items.last());
        assert(joined(items, text) =~= text(items[0]) + each_after_comma(
            items.drop_first(),
            text,
        ));
    }
}

/// The rest of a list is read back from its text: where the items stand at
/// `i`, each after a comma, and the list may end after them, reading
/// gathers all of them.
pub(crate) proof fn lemma_list_rest<T>(
    elem: spec_fn(Seq<char>, int) -> Step<T>,
    text: spec_fn(T) -> Seq<char>,
    s: Seq<char>,
    i: int,
    items: Seq<T>,
    acc: Seq<T>,
)
    requires
        starts_at(s, i, each_after_comma(items, text)),
        ends_item(s, i + each_after_comma(items, text).len()),
        !has_char(s, i + each_after_comma(items, text).len(), ','),
        forall|k: int| 0 <= k < items.len() ==> reads_back(elem, text, s, #[trigger] items[k]),
    ensures
        list_rest(elem, s, i, acc) == (acc + items, i + each_after_comma(items, text).len()),
    decreases items.len(),
{
    reveal_strlit(",");
    if items.len() == 0 {
        assert(acc + items =~= acc);
    } else {
        let first = items[0];
        let rest = items.drop_first();
        let rest_text = each_after_comma(rest, text);
        assert(reads_back(elem, text, s, first));
        lemma_starts_at_split(s, i, ","@ + text(first), rest_text);
        lemma_starts_at_split(s, i, ","@, text(first));
        lemma_starts_at_char(s, i, ","@);
        let j = i + 1 + text(first).len();
        if rest.len() > 0 {
            assert(rest_text == ","@ + text(rest[0]) + each_after_comma(rest.drop_first(), text));
            assert(rest_text[0] == ',');
            assert(s.subrange(j, j + rest_text.len())[0] == s[j]);
        } else {
            assert(rest_text.len() == 0);
        }
        assert(elem(s, i + 1) == Some((first, j)));
        assert forall|k: int| 0 <= k < rest.len() implies reads_back(
            elem,
            text,
            s,
            #[trigger] rest[k],
        ) by {
            assert(rest[k] == items[k + 1]);
        }
        lemma_list_rest(elem, text, s, j, rest, acc.push(first));
        assert(acc.push(first) + rest =~= acc + items);
    }
}

/// A list of at least one item is read back from its text.
pub(crate) proof fn lemma_nonempty_list_at<T>(
    elem: spec_fn(Seq<char>, int) -> Step<T>,
    text: spec_fn(T) -> Seq<char>,
    s: Seq<char>,
    i: int,
    items: Seq<T>,
)
    requires
        items.len() > 0,
        starts_at(s, i, joined(items, text)),
        ends_item(s, i + joined(items, text).len()),
        !has_char(s, i + joined(items, text).len(), ','),
        forall|k: int| 0 <= k < items.len() ==> reads_back(elem, text, s, #[trigger] items[k]),
    ensures
        nonempty_list_at(elem, s, i) == Some((items, i + joined(items, text).len())),
        list_at(elem, s, i) == Some((items, i + joined(items, text).len())),
{
    reveal_strlit(",");
    let first = items[0];
    let rest = items.drop_first();
    let rest_text = each_after_comma(rest, text);
    lemma_joined_first(items, text);
    lemma_starts_at_split(s, i, text(first), rest_text);
    assert(reads_back(elem, text, s, first));
    let j = i + text(first).len();
    if rest.len() > 0 {
        assert(rest_text == ","@ + text(rest[0]) + each_after_comma(rest.drop_first(), text));
        assert(rest_text[0] == ',');
        assert(s.subrange(j, j + rest_text.len())[0] == s[j]);
    } else {
        assert(rest_text.len() == 0);
    }
    assert(elem(s, i) == Some((first, j)));
    assert forall|k: int| 0 <= k < rest.len() implies reads_back(
        elem,
        text,
        s,
        #[trigger] rest[k],
    ) by {
        assert(rest[k] == items[k + 1]);
    }
    lemma_list_rest(elem, text, s, j, rest, seq![first]);
    assert(seq![first] + rest =~= items);
}

/// Every text stands at its own start.
pub(crate) proof fn lemma_starts_at_self(s: Seq<char>)
    ensures
        starts_at(s, 0, s),
{
    assert(s.subrange(0, s.len() as int) =~= s);
}

/// Reading the rest of a list loses none of the items that were read.
pub(crate) proof fn lemma_list_rest_keeps<T>(
    elem: spec_fn(Seq<char>, int) -> Step<T>,
    s: Seq<char>,
    i: int,
    acc: Seq<T>,
)
    ensures
        list_rest(elem, s, i, acc).0.len() >= acc.len(),
    decreases s.len() - i,
{
    if has_char(s, i, ',') {
        match elem(s, i + 1) {
            Some((v, j)) => {
                if i + 1 < j <= s.len() {
                    lemma_list_rest_keeps(elem, s, j, acc.push(v));
                }
            },
            None => {},
        }
    }
}

/// A character is found where it first stands.
pub(crate) proof fn lemma_find_char(s: Seq<char>, i: int, j: int, c: char)
    requires
        0 <= i <= j <= s.len(),
        forall|k: int| i <= k < j ==> #[trigger] s[k] != c,
        j < s.len() ==> s[j] == c,
    ensures
        find_char(s, i, c) == j,
    decreases j - i,
{
    if i < j {
        lemma_find_char(s, i + 1, j, c);
    }
}

/// Before the place where a character is found it does not stand, and the
/// place is not past the end.
pub(crate) proof fn lemma_find_char_first(s: Seq<char>, i: int, c: char)
    requires
        0 <= i <= s.len(),
    ensures
        i <= find_char(s, i, c) <= s.len(),
        forall|k: int| i <= k < find_char(s, i, c) ==> #[trigger] s[k] != c,
        find_char(s, i, c) < s.len() ==> s[find_char(s, i, c)] == c,
    decreases s.len() - i,
{
    if i < s.len() && s[i] != c {
        lemma_find_char_first(s, i + 1, c);
    }
}

/// A text that is free of a character, and which that character follows,
/// ends where the character is found.
pub(crate) proof fn lemma_find_char_after(s: Seq<char>, i: int, text: Seq<char>, c: char)
    requires
        starts_at(s, i, text),
        is_free_of(text, c),
        has_char(s, i + text.len(), c) || i + text.len() == s.len(),
    ensures
        find_char(s, i, c) == i + text.len(),
{
    assert forall|k: int| i <= k < i + text.len() implies #[trigger] s[k] != c by {
        assert(s[k] == s.subrange(i, i + text.len())[k - i]);
        assert(text[k - i] != c);
    }
    lemma_find_char(s, i, i + text.len(), c);
}

/// The text up to the place where a character is found is free of it.
pub(crate) proof fn lemma_found_free(s: Seq<char>, i: int, c: char)
    requires
        0 <= i <= s.len(),
    ensures
        is_free_of(s.subrange(i, find_char(s, i, c)), c),
{
    lemma_find_char_first(s, i, c);
}

/// Whether `elem` reads nothing but what `text` writes: the part of `s`
/// that it takes for a value is the text form of the value.
pub open spec fn reads_text<T>(
    elem: spec_fn(Seq<char>, int) -> Step<T>,
    text: spec_fn(T) -> Seq<char>,
    s: Seq<char>,
) -> bool {
    forall|p: int|
        0 <= p <= s.len() ==> match #[trigger] elem(s, p) {
            Some((v, q)) => p <= q <= s.len() && s.subrange(p, q) == text(v),
            None => true,
        }
}

/// The rest of a list is read from its own text: where the items read so
/// far are written from `start` to `i`, all the items are written from
/// `start` to the place where reading ends.
pub(crate) proof fn lemma_list_rest_written<T>(
    elem: spec_fn(Seq<char>, int) -> Step<T>,
    text: spec_fn(T) -> Seq<char>,
    s: Seq<char>,
    start: int,
    i: int,
    acc: Seq<T>,
)
    requires
        0 <= start <= i <= s.len(),
        acc.len() > 0,
        s.subrange(start, i) == joined(acc, text),
        reads_text(elem, text, s),
    ensures
        i <= list_rest(elem, s, i, acc).1 <= s.len(),
        s.subrange(start, list_rest(elem, s, i, acc).1) == joined(
            list_rest(elem, s, i, acc).0,
            text,
        ),
    decreases s.len() - i,
{
    reveal_strlit(",");
    if has_char(s, i, ',') {
        match elem(s, i + 1) {
            Some((v, q)) => {
                if i + 1 < q <= s.len() {
                    let next = acc.push(v);
                    assert(next.drop_last() =~= acc);
                    assert(next.last() == v);
                    assert(s.subrange(start, q) =~= s.subrange(start, i) + ","@ + s.subrange(
                        i + 1,
                        q,
                    ));
                    lemma_list_rest_written(elem, text, s, start, q, next);
                }
            },
            None => {},
        }
    }
}

} // verus!
