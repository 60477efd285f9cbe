//! The signature of the first HTTP request or response of a connection.

use vstd::prelude::*;
use crate::opt_view;
use crate::text::{is_ascii_alphanumeric, is_free_of};

verus! {

/// What the headers of a request or response tell of the agent that sent it.
#[derive(Clone, Debug, PartialEq)]
pub struct Signature {
    /// HTTP version
    pub version: Version,
    /// ordered list of headers that should appear in matching traffic.
    pub horder: Vec<Header>,
    /// list of headers that must *not* appear in matching traffic.
    pub habsent: Vec<Header>,
    /// expected substring in 'User-Agent' or 'Server'.
    pub expsw: String,
}

/// A signature as a mathematical value.
pub struct SignatureView {
    pub version: Version,
    pub horder: Seq<HeaderView>,
    pub habsent: Seq<HeaderView>,
    pub expsw: Seq<char>,
}

impl SignatureView {
    /// Whether the signature can be told from its text form: it asks for at
    /// least one header, and all its headers can stand in a list.
    pub open spec fn is_plain(self) -> bool {
        &&& self.horder.len() > 0
        &&& forall|k: int| 0 <= k < self.horder.len() ==> (#[trigger] self.horder[k]).is_listed()
        &&& forall|k: int|
            0 <= k < self.habsent.len() ==> (#[trigger] self.habsent[k]).is_listed()
    }
}

impl View for Signature {
    type V = SignatureView;

    open spec fn view(&self) -> SignatureView {
        SignatureView {
            version: self.version,
            horder: self.horder.deep_view(),
            habsent: self.habsent.deep_view(),
            expsw: self.expsw@,
        }
    }
}

impl DeepView for Signature {
    type V = SignatureView;

    open spec fn deep_view(&self) -> SignatureView {
        self.view()
    }
}

#[derive(Clone, Copy, Debug, PartialEq, Eq)]
pub enum Version {
    /// HTTP/1.0
    V10,
    /// HTTP/1.1
    V11,
    /// HTTP/1.0 or HTTP/1.1
    Any,
}

/// A header that a signature asks for, or forbids.
#[derive(Clone, Debug, PartialEq)]
pub struct Header {
    pub optional: bool,
    pub name: String,
    pub value: Option<String>,
}

/// A header as a mathematical value.
pub struct HeaderView {
    pub optional: bool,
    pub name: Seq<char>,
    pub value: Option<Seq<char>>,
}

/// A character of a header's name: an ASCII letter or digit, or a hyphen.
pub open spec fn is_name_char(c: char) -> bool {
    is_ascii_alphanumeric(c) || c == '-'
}

/// Whether `name` is made of name characters alone.
pub open spec fn is_name(name: Seq<char>) -> bool {
    forall|k: int| 0 <= k < name.len() ==> is_name_char(#[trigger] name[k])
}

impl HeaderView {
    /// Whether the header can be told from its text form: its name is made
    /// of name characters, and its value, if it has one, is free of `]`.
    pub open spec fn is_plain(self) -> bool {
        &&& is_name(self.name)
        &&& match self.value {
            Some(value) => is_free_of(value, ']'),
            None => true,
        }
    }

    /// Whether the header can stand in a list: it is plain, and its text
    /// form is not empty.
    pub open spec fn is_listed(self) -> bool {
        self.is_plain() && (self.optional || self.name.len() > 0 || self.value is Some)
    }
}

impl View for Header {
    type V = HeaderView;

    open spec fn view(&self) -> HeaderView {
        HeaderView { optional: self.optional, name: self.name@, value: opt_view(self.value) }
    }
}

impl DeepView for Header {
    type V = HeaderView;

    open spec fn deep_view(&self) -> HeaderView {
        self.view()
    }
}

/// A header that must be there, with any value.
pub fn header(name: &str) -> (h: Header)
    ensures
        h@ == (HeaderView { optional: false, name: name@, value: None }),
{
    Header::new(name)
}

impl Header {
    /// A header that must be there, with any value.
    pub fn new(name: &str) -> (h: Header)
        ensures
            h@ == (HeaderView { optional: false, name: name@, value: None }),
    {
        Header { optional: false, name: name.to_owned(), value: None }
    }

    /// The same header, asked to hold `value`.
    pub fn with_value(self, value: &str) -> (h: Header)
        ensures
            h@ == (HeaderView { optional: self@.optional, name: self@.name, value: Some(value@) }),
    {
        Header { optional: self.optional, name: self.name, value: Some(value.to_owned()) }
    }

    /// The same header, free to be absent.
    pub fn optional(self) -> (h: Header)
        ensures
            h@ == (HeaderView { optional: true, name: self@.name, value: self@.value }),
    {
        Header { optional: true, name: self.name, value: self.value }
    }
}

} // verus!
