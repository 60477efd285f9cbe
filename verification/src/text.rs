//! Characters, decimal numbers and literal tokens: the ground the text forms
//! stand on. Text is modelled as `Seq<char>`; a position is an index into it.

use vstd::prelude::*;

verus! {

/// An ASCII decimal digit.
pub open spec fn is_digit(c: char) -> bool {
    '0' <= c && c <= '9'
}

/// The value of a decimal digit.
pub open spec fn digit_value(c: char) -> nat
    recommends
        is_digit(c),
{
    (c as int - '0' as int) as nat
}

/// The digit that stands for `d`.
pub open spec fn digit_char(d: nat) -> char
    recommends
        d < 10,
{
    ('0' as int + d) as char
}

/// A blank between the parts of a database line: a space or a tab.
pub open spec fn is_blank(c: char) -> bool {
    c == ' ' || c == '\t'
}

/// A character with the Unicode property `White_Space`.
pub open spec fn is_whitespace(c: char) -> bool {
    let n = c as int;
    ||| 0x09 <= n <= 0x0d
    ||| n == 0x20
    ||| n == 0x85
    ||| n == 0xa0
    ||| n == 0x1680
    ||| 0x2000 <= n <= 0x200a
    ||| n == 0x2028
    ||| n == 0x2029
    ||| n == 0x202f
    ||| n == 0x205f
    ||| n == 0x3000
}

/// Whether `c` is a letter: whether it has the Unicode property
/// `Alphabetic`.
pub uninterp spec fn is_alphabetic(c: char) -> bool;

/// For each character of `s`, whether it is a letter.
pub open spec fn letters_of(s: Seq<char>) -> Seq<bool> {
    Seq::new(s.len(), |i: int| is_alphabetic(s[i]))
}

/// The position just past the run of white space that begins at `i`.
pub open spec fn whitespace_end(s: Seq<char>, i: int) -> int
    decreases s.len() - i,
{
    if 0 <= i < s.len() && is_whitespace(s[i]) {
        whitespace_end(s, i + 1)
    } else {
        i
    }
}

/// The position at which the run of white space begins that ends at `j`,
/// looked for no further back than `i`.
pub open spec fn whitespace_start(s: Seq<char>, i: int, j: int) -> int
    decreases j - i,
{
    if i < j <= s.len() && is_whitespace(s[j - 1]) {
        whitespace_start(s, i, j - 1)
    } else {
        j
    }
}

/// Where `s` begins and ends once the white space at both ends is left out.
pub open spec fn trimmed(s: Seq<char>) -> (int, int) {
    let i = whitespace_end(s, 0);
    (i, whitespace_start(s, i, s.len() as int))
}

/// An ASCII letter or digit.
pub open spec fn is_ascii_alphanumeric(c: char) -> bool {
    ||| ('0' <= c && c <= '9')
    ||| ('a' <= c && c <= 'z')
    ||| ('A' <= c && c <= 'Z')
}

/// Whether `c` stands nowhere in `text`.
pub open spec fn is_free_of(text: Seq<char>, c: char) -> bool {
    forall|k: int| 0 <= k < text.len() ==> #[trigger] text[k] != c
}

/// Whether `c` stands at position `i` of `s`.
pub open spec fn has_char(s: Seq<char>, i: int, c: char) -> bool {
    0 <= i < s.len() && s[i] == c
}

/// Whether `lit` stands in `s` from position `i` on.
pub open spec fn starts_at(s: Seq<char>, i: int, lit: Seq<char>) -> bool {
    0 <= i && i + lit.len() <= s.len() && s.subrange(i, i + lit.len()) == lit
}

/// The first position from `i` on at which `c` stands; the length of `s`, or
/// `i` if that is more, where it stands at none.
pub open spec fn find_char(s: Seq<char>, i: int, c: char) -> int
    decreases s.len() - i,
{
    if 0 <= i < s.len() && s[i] != c {
        find_char(s, i + 1, c)
    } else {
        i
    }
}

/// The position just past the run of digits that begins at `i`.
pub open spec fn digits_end(s: Seq<char>, i: int) -> int
    decreases s.len() - i,
{
    if 0 <= i < s.len() && is_digit(s[i]) {
        digits_end(s, i + 1)
    } else {
        i
    }
}

/// The number that a string of decimal digits denotes.
pub open spec fn decimal_value(d: Seq<char>) -> nat
    decreases d.len(),
{
    if d.len() == 0 {
        0
    } else {
        decimal_value(d.drop_last()) * 10 + digit_value(d.last())
    }
}

/// A decimal number of at most `max` at position `i`: its value and the
/// position after its last digit. The run of digits is taken whole, leading
/// zeros included; there is no number where no digit stands or where the
/// value is over `max`.
pub open spec fn number_at(s: Seq<char>, i: int, max: nat) -> Option<(nat, int)> {
    let j = digits_end(s, i);
    let v = decimal_value(s.subrange(i, j));
    if 0 <= i < j && v <= max {
        Some((v, j))
    } else {
        None
    }
}

/// The decimal form of `n`, without leading zeros.
pub open spec fn decimal(n: nat) -> Seq<char>
    decreases n,
{
    if n < 10 {
        seq![digit_char(n)]
    } else {
        decimal(n / 10).push(digit_char(n % 10))
    }
}

pub(crate) fn char_is_digit(c: char) -> (r: bool)
    ensures
        r == is_digit(c),
{
    '0' <= c && c <= '9'
}

pub(crate) fn char_is_blank(c: char) -> (r: bool)
    ensures
        r == is_blank(c),
{
    c == ' ' || c == '\t'
}

pub(crate) fn char_is_whitespace(c: char) -> (r: bool)
    ensures
        r == is_whitespace(c),
{
    let n: u32 = c as u32;
    (0x09 <= n && n <= 0x0d) || n == 0x20 || n == 0x85 || n == 0xa0 || n == 0x1680 || (0x2000 <= n
        && n <= 0x200a) || n == 0x2028 || n == 0x2029 || n == 0x202f || n == 0x205f || n == 0x3000
}

pub(crate) fn char_is_ascii_alphanumeric(c: char) -> (r: bool)
    ensures
        r == is_ascii_alphanumeric(c),
{
    ('0' <= c && c <= '9') || ('a' <= c && c <= 'z') || ('A' <= c && c <= 'Z')
}

/// The characters of `s`, in order.
pub fn chars_of(s: &str) -> (v: Vec<char>)
    ensures
        v@ == s@,
{
    let mut v: Vec<char> = Vec::new();
    for c in it: s.chars()
        invariant
            v@ == it.seq().take(it.index() as int),
            it.seq() == s@,
    {
        v.push(c);
    }
    v
}

/// Appends the characters of `s` to `out`.
pub(crate) fn push_str(out: &mut Vec<char>, s: &str)
    ensures
        final(out)@ == old(out)@ + s@,
{
    let ghost before = out@;
    for c in it: s.chars()
        invariant
            out@ == before + it.seq().take(it.index() as int),
            it.seq() == s@,
    {
        out.push(c);
    }
}

/// Whether `lit` stands in `input` from `pos` on.
pub(crate) fn eat(input: &[char], pos: usize, lit: &str) -> (r: bool)
    requires
        pos <= input.len(),
    ensures
        r == starts_at(input@, pos as int, lit@),
{
    let mut i: usize = pos;
    for c in it: lit.chars()
        invariant
            it.seq() == lit@,
            i == pos + it.index(),
            i <= input.len(),
            input@.subrange(pos as int, i as int) == lit@.take(it.index() as int),
    {
        if i >= input.len() {
            return false;
        }
        if input[i] != c {
            return false;
        }
        i += 1;
    }
    assert(lit@.take(lit@.len() as int) == lit@);
    true
}

/// Whether `c` stands at `pos` in `input`.
pub(crate) fn eat_char(input: &[char], pos: usize, c: char) -> (r: bool)
    ensures
        r == has_char(input@, pos as int, c),
        r ==> pos < input.len(),
{
    pos < input.len() && input[pos] == c
}

/// The first position from `pos` on at which `c` stands, or the length of
/// `input`.
pub(crate) fn find(input: &[char], pos: usize, c: char) -> (k: usize)
    requires
        pos <= input.len(),
    ensures
        k == find_char(input@, pos as int, c),
        pos <= k <= input.len(),
{
    let mut k: usize = pos;
    while k < input.len() && input[k] != c
        invariant
            pos <= k <= input.len(),
            find_char(input@, pos as int, c) == find_char(input@, k as int, c),
        decreases input.len() - k,
    {
        k += 1;
    }
    k
}

/// Reads the decimal number of at most `max` that begins at `pos`.
pub(crate) fn read_number(input: &[char], pos: usize, max: u16) -> (r: Option<(u16, usize)>)
    requires
        pos <= input.len(),
    ensures
        match r {
            Some((v, j)) => number_at(input@, pos as int, max as nat) == Some((v as nat, j as int))
                && v <= max && pos < j <= input.len(),
            None => number_at(input@, pos as int, max as nat) is None,
        },
{
    let mut j: usize = pos;
    let mut acc: u32 = 0;
    let mut over: bool = false;
    while j < input.len() && char_is_digit(input[j])
        invariant
            pos <= j <= input.len(),
            digits_end(input@, pos as int) == digits_end(input@, j as int),
            !over ==> acc == decimal_value(input@.subrange(pos as int, j as int)) && acc <= max,
            over ==> decimal_value(input@.subrange(pos as int, j as int)) > max,
        decreases input.len() - j,
    {
        let d: u32 = input[j] as u32 - '0' as u32;
        assert(input@.subrange(pos as int, j + 1).drop_last() == input@.subrange(
            pos as int,
            j as int,
        ));
        if !over {
            acc = acc * 10 + d;
            if acc > max as u32 {
                over = true;
            }
        }
        j += 1;
    }
    if j == pos || over {
        None
    } else {
        Some((acc as u16, j))
    }
}

/// The digit for `d`.
pub(crate) fn digit_of(d: u16) -> (c: char)
    requires
        d < 10,
    ensures
        c == digit_char(d as nat),
        is_digit(c),
{
    (48u8 + d as u8) as char
}

/// Appends the decimal form of `n` to `out`.
pub(crate) fn push_decimal(out: &mut Vec<char>, n: u16)
    ensures
        final(out)@ == old(out)@ + decimal(n as nat),
    decreases n,
{
    if n >= 10 {
        push_decimal(out, n / 10);
    }
    out.push(digit_of(n % 10));
}

/// A string with the characters of `chars`.
///
/// Trusted: `String::from_iter` over a slice of characters is taken to build
/// the string that holds exactly those characters, in their order.
#[verifier::external_body]
pub(crate) fn string_of(chars: &[char]) -> (s: String)
    ensures
        s@ == chars@,
{
    String::from_iter(chars)
}

/// Whether `c` is a letter.
///
/// Trusted: `char::is_alphabetic` is taken to depend on the character alone;
/// its answer is given the name `is_alphabetic`.
#[verifier::external_body]
pub(crate) fn char_is_alphabetic(c: char) -> (r: bool)
    ensures
        r == is_alphabetic(c),
{
    c.is_alphabetic()
}

/// Marks the letters of `text`.
pub fn mark_letters(text: &[char]) -> (marks: Vec<bool>)
    ensures
        marks@ == letters_of(text@),
{
    let mut marks: Vec<bool> = Vec::new();
    let mut i: usize = 0;
    while i < text.len()
        invariant
            i <= text.len(),
            marks@ == letters_of(text@.take(i as int)),
        decreases text.len() - i,
    {
        marks.push(char_is_alphabetic(text[i]));
        i += 1;
    }
    marks
}

/// Finds where `line` begins and ends without the white space at its ends.
pub(crate) fn trim(line: &[char]) -> (r: (usize, usize))
    ensures
        (r.0 as int, r.1 as int) == trimmed(line@),
        r.0 <= r.1 <= line.len(),
{
    let mut i: usize = 0;
    while i < line.len() && char_is_whitespace(line[i])
        invariant
            i <= line.len(),
            whitespace_end(line@, 0) == whitespace_end(line@, i as int),
        decreases line.len() - i,
    {
        i += 1;
    }
    let mut j: usize = line.len();
    while i < j && char_is_whitespace(line[j - 1])
        invariant
            i <= j <= line.len(),
            whitespace_start(line@, i as int, line@.len() as int) == whitespace_start(
                line@,
                i as int,
                j as int,
            ),
        decreases j - i,
    {
        j -= 1;
    }
    (i, j)
}

/// Whether the characters of `line` from `from` to `to` are those of `lit`.
pub(crate) fn is_text(line: &[char], from: usize, to: usize, lit: &str) -> (r: bool)
    requires
        from <= to <= line.len(),
    ensures
        r == (line@.subrange(from as int, to as int) == lit@),
{
    eat(line, from, lit) && to - from == lit.unicode_len()
}

} // verus!
