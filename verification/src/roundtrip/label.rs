//! Labels: reading the text form gives the label.

use vstd::prelude::*;
use crate::display::{label_text, or_text, type_text};
use crate::parse::label::{class_at, label_at, label_of, type_at, type_of};
use crate::parse::ParseError;
use crate::roundtrip::{
    lemma_find_char_after, lemma_find_char_first, lemma_found_free, lemma_starts_at_char,
    lemma_starts_at_self, lemma_starts_at_split,
};
use crate::text::{has_char, starts_at};
use crate::{LabelView, Type};

verus! {

pub(crate) proof fn lemma_type_at(s: Seq<char>, i: int, t: Type)
    requires
        starts_at(s, i, type_text(t)),
    ensures
        type_at(s, i) == Some((t, i + 1)),
        type_text(t).len() == 1,
{
    reveal_strlit("s");
    reveal_strlit("g");
    lemma_starts_at_char(s, i, type_text(t));
}

/// A plain label is read back from its text, where the text ends with it.
pub(crate) proof fn lemma_label_at(s: Seq<char>, i: int, label: LabelView)
    requires
        label.is_plain(),
        starts_at(s, i, label_text(label)),
        i + label_text(label).len() == s.len(),
    ensures
        label_at(s, i) == Ok::<(LabelView, int), int>((label, s.len() as int)),
{
    reveal_strlit(":");
    reveal_strlit("!");
    let c = ":"@;
    let ty = type_text(label.ty);
    let class = or_text(label.class, "!"@);
    let flavor = or_text(label.flavor, Seq::empty());
    let p1 = ty;
    let p2 = p1 + c;
    let p3 = p2 + class;
    let p4 = p3 + c;
    let p5 = p4 + label.name;
    let p6 = p5 + c;
    assert(label_text(label) == p6 + flavor);
    lemma_starts_at_split(s, i, p6, flavor);
    lemma_starts_at_split(s, i, p5, c);
    lemma_starts_at_split(s, i, p4, label.name);
    lemma_starts_at_split(s, i, p3, c);
    lemma_starts_at_split(s, i, p2, class);
    lemma_starts_at_split(s, i, p1, c);
    lemma_starts_at_char(s, i + p1.len(), c);
    lemma_starts_at_char(s, i + p3.len(), c);
    lemma_starts_at_char(s, i + p5.len(), c);
    lemma_type_at(s, i, label.ty);
    let a = i + 1;
    let b = i + p3.len();
    match label.class {
        Some(text) => {
            lemma_find_char_after(s, a + 1, text, ':');
            if text.len() > 0 {
                assert(s.subrange(a + 1, a + 1 + text.len())[0] == s[a + 1]);
            }
            assert(class_at(s, a + 1) == Ok::<(Option<Seq<char>>, int), int>((label.class, b)));
        },
        None => {
            lemma_starts_at_char(s, a + 1, "!"@);
            assert(class_at(s, a + 1) == Ok::<(Option<Seq<char>>, int), int>((label.class, b)));
        },
    }
    lemma_find_char_after(s, b + 1, label.name, ':');
    let e = i + p5.len();
    assert(s.subrange(e + 1, s.len() as int) == flavor);
}

/// Reading the text form of a label type gives the type.
pub proof fn type_round_trip(t: Type)
    ensures
        type_of(type_text(t)) == Ok::<Type, ParseError>(t),
{
    lemma_starts_at_self(type_text(t));
    lemma_type_at(type_text(t), 0, t);
}

/// Reading the text form of a plain label gives the label.
pub proof fn label_round_trip(label: LabelView)
    requires
        label.is_plain(),
    ensures
        label_of(label_text(label)) == Ok::<LabelView, ParseError>(label),
{
    lemma_starts_at_self(label_text(label));
    lemma_label_at(label_text(label), 0, label);
}

/// A label that was read from a text is plain.
pub proof fn label_read_is_plain(s: Seq<char>)
    ensures
        match label_of(s) {
            Ok(label) => label.is_plain(),
            Err(_) => true,
        },
{
    match label_at(s, 0) {
        Ok((label, _)) => {
            let a = type_at(s, 0).unwrap().1;
            let b = class_at(s, a + 1)->Ok_0.1;
            lemma_find_char_first(s, a + 1, ':');
            lemma_found_free(s, a + 1, ':');
            lemma_found_free(s, b + 1, ':');
            match label.class {
                Some(class) => {
                    if class.len() > 0 {
                        assert(class[0] == s[a + 1]);
                    }
                },
                None => {},
            }
        },
        Err(_) => {},
    }
}

/// A label that was read from a text is read again from its own text form:
/// writing and reading it changes nothing.
pub proof fn label_read_again(s: Seq<char>)
    ensures
        match label_of(s) {
            Ok(label) => label_of(label_text(label)) == Ok::<LabelView, ParseError>(label),
            Err(_) => true,
        },
{
    label_read_is_plain(s);
    match label_of(s) {
        Ok(label) => {
            label_round_trip(label);
        },
        Err(_) => {},
    }
}

/// A label is read from its own text form alone: a text that reads as a
/// label is what the label is written as.
pub proof fn label_written_as_read(s: Seq<char>)
    ensures
        match label_of(s) {
            Ok(label) => label_text(label) == s,
            Err(_) => true,
        },
{
    reveal_strlit("s");
    reveal_strlit("g");
    reveal_strlit(":");
    reveal_strlit("!");
    match label_at(s, 0) {
        Ok((label, _)) => {
            let b = class_at(s, 2)->Ok_0.1;
            lemma_find_char_first(s, 2, ':');
            lemma_find_char_first(s, b + 1, ':');
            let c = crate::text::find_char(s, b + 1, ':');
            let class = or_text(label.class, "!"@);
            let flavor = or_text(label.flavor, Seq::empty());
            assert(type_text(label.ty) =~= s.subrange(0, 1));
            assert(class =~= s.subrange(2, b));
            assert(flavor =~= s.subrange(c + 1, s.len() as int));
            assert(":"@ =~= s.subrange(1, 2));
            assert(":"@ =~= s.subrange(b, b + 1));
            assert(":"@ =~= s.subrange(c, c + 1));
            assert(label_text(label) =~= s.subrange(0, 1) + s.subrange(1, 2) + s.subrange(2, b)
                + s.subrange(b, b + 1) + s.subrange(b + 1, c) + s.subrange(c, c + 1)
                + s.subrange(c + 1, s.len() as int));
            assert(label_text(label) =~= s);
        },
        Err(_) => {},
    }
}

} // verus!
