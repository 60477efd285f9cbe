//! Passive fingerprinting of TCP/IP stacks and HTTP agents in the manner of
//! p0f: the signature types, their text forms, the fingerprint database and
//! the extraction of a TCP signature from a captured frame.

use vstd::prelude::*;

pub mod db;
pub mod display;
pub mod http;
pub mod packet;
pub mod parse;
pub mod roundtrip;
pub mod tcp;
pub mod text;

verus! {

/// What a database entry says its signatures belong to.
#[derive(Clone, Debug, PartialEq)]
pub struct Label {
    pub ty: Type,
    pub class: Option<String>,
    pub name: String,
    pub flavor: Option<String>,
}

/// A label as a mathematical value.
pub struct LabelView {
    pub ty: Type,
    pub class: Option<Seq<char>>,
    pub name: Seq<char>,
    pub flavor: Option<Seq<char>>,
}

impl LabelView {
    /// Whether the label can be told from its text form: its class and its
    /// name are free of colons, its class does not begin with `!`, and its
    /// flavor, if it has one, is not empty.
    pub open spec fn is_plain(self) -> bool {
        &&& match self.class {
            Some(class) => text::is_free_of(class, ':') && !text::has_char(class, 0, '!'),
            None => true,
        }
        &&& text::is_free_of(self.name, ':')
        &&& match self.flavor {
            Some(flavor) => flavor.len() > 0,
            None => true,
        }
    }
}

/// The characters of a string that may be absent.
pub open spec fn opt_view(s: Option<String>) -> Option<Seq<char>> {
    match s {
        Some(s) => Some(s@),
        None => None,
    }
}

impl View for Label {
    type V = LabelView;

    open spec fn view(&self) -> LabelView {
        LabelView {
            ty: self.ty,
            class: opt_view(self.class),
            name: self.name@,
            flavor: opt_view(self.flavor),
        }
    }
}

impl DeepView for Label {
    type V = LabelView;

    open spec fn deep_view(&self) -> LabelView {
        self.view()
    }
}

#[derive(Clone, Copy, Debug, PartialEq, Eq)]
pub enum Type {
    Specified,
    Generic,
}

} // verus!
