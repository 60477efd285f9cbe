//! The text forms of the signature types and of their parts.

use vstd::prelude::*;
use crate::http::{Header, HeaderView, Version};
use crate::parse::ParseError;
use crate::tcp::{
    IpVersion, PayloadSize, Quirk, Signature, SignatureView, TcpOption, WindowSize, TTL,
};
use crate::{Label, LabelView, Type};
use crate::text::{decimal, push_decimal, push_str, string_of};

verus! {

pub open spec fn ip_version_text(v: IpVersion) -> Seq<char> {
    match v {
        IpVersion::V4 => "4"@,
        IpVersion::V6 => "6"@,
        IpVersion::Any => "*"@,
    }
}

pub open spec fn ttl_text(t: TTL) -> Seq<char> {
    match t {
        TTL::Value(n) => decimal(n as nat),
        TTL::Distance(n, d) => decimal(n as nat) + "+"@ + decimal(d as nat),
        TTL::Guess(n) => decimal(n as nat) + "+?"@,
        TTL::Bad(n) => decimal(n as nat) + "-"@,
    }
}

pub open spec fn window_size_text(w: WindowSize) -> Seq<char> {
    match w {
        WindowSize::MSS(n) => "mss*"@ + decimal(n as nat),
        WindowSize::MTU(n) => "mtu*"@ + decimal(n as nat),
        WindowSize::Value(n) => decimal(n as nat),
        WindowSize::Mod(n) => "%"@ + decimal(n as nat),
        WindowSize::Any => "*"@,
    }
}

pub open spec fn tcp_option_text(o: TcpOption) -> Seq<char> {
    match o {
        TcpOption::EOL(n) => "eol+"@ + decimal(n as nat),
        TcpOption::NOP => "nop"@,
        TcpOption::MSS => "mss"@,
        TcpOption::WS => "ws"@,
        TcpOption::SOK => "sok"@,
        TcpOption::SACK => "sack"@,
        TcpOption::TS => "ts"@,
        TcpOption::Unknown(n) => "?"@ + decimal(n as nat),
    }
}

pub open spec fn quirk_text(q: Quirk) -> Seq<char> {
    match q {
        Quirk::DF => "df"@,
        Quirk::NonZeroID => "id+"@,
        Quirk::ZeroID => "id-"@,
        Quirk::ECN => "ecn"@,
        Quirk::MustBeZero => "0+"@,
        Quirk::FlowID => "flow"@,
        Quirk::SeqNumZero => "seq-"@,
        Quirk::AckNumNonZero => "ack+"@,
        Quirk::AckNumZero => "ack-"@,
        Quirk::NonZeroURG => "uptr+"@,
        Quirk::URG => "urgf+"@,
        Quirk::PUSH => "pushf+"@,
        Quirk::OwnTimestampZero => "ts1-"@,
        Quirk::PeerTimestampNonZero => "ts2+"@,
        Quirk::TrailinigNonZero => "opt+"@,
        Quirk::ExcessiveWindowScaling => "exws"@,
        Quirk::OptBad => "bad"@,
    }
}

pub open spec fn payload_size_text(p: PayloadSize) -> Seq<char> {
    match p {
        PayloadSize::Zero => "0"@,
        PayloadSize::NonZero => "+"@,
        PayloadSize::Any => "*"@,
    }
}

/// The decimal form of a number, or `*` where there is none.
pub open spec fn optional_number_text(n: Option<nat>) -> Seq<char> {
    match n {
        Some(n) => decimal(n),
        None => "*"@,
    }
}

/// The text forms of `items`, with a comma between each two.
pub open spec fn joined<T>(items: Seq<T>, text: spec_fn(T) -> Seq<char>) -> Seq<char>
    decreases items.len(),
{
    if items.len() == 0 {
        Seq::empty()
    } else if items.len() == 1 {
        text(items[0])
    } else {
        joined(items.drop_last(), text) + ","@ + text(items.last())
    }
}

pub open spec fn tcp_option_form() -> spec_fn(TcpOption) -> Seq<char> {
    |o: TcpOption| tcp_option_text(o)
}

pub open spec fn quirk_form() -> spec_fn(Quirk) -> Seq<char> {
    |q: Quirk| quirk_text(q)
}

pub open spec fn wide16(n: Option<u16>) -> Option<nat> {
    match n {
        Some(n) => Some(n as nat),
        None => None,
    }
}

pub open spec fn wide8(n: Option<u8>) -> Option<nat> {
    match n {
        Some(n) => Some(n as nat),
        None => None,
    }
}

/// `version:ittl:olen:mss:wsize,wscale:olayout:quirks:pclass`
pub open spec fn signature_text(sig: SignatureView) -> Seq<char> {
    ip_version_text(sig.version) + ":"@ + ttl_text(sig.ittl) + ":"@ + decimal(sig.olen as nat)
        + ":"@ + optional_number_text(wide16(sig.mss)) + ":"@ + window_size_text(sig.wsize) + ","@
        + optional_number_text(wide8(sig.wscale)) + ":"@ + joined(sig.olayout, tcp_option_form())
        + ":"@ + joined(sig.quirks, quirk_form()) + ":"@ + payload_size_text(sig.pclass)
}

pub(crate) fn push_ip_version(out: &mut Vec<char>, v: IpVersion)
    ensures
        final(out)@ == old(out)@ + ip_version_text(v),
{
    match v {
        IpVersion::V4 => push_str(out, "4"),
        IpVersion::V6 => push_str(out, "6"),
        IpVersion::Any => push_str(out, "*"),
    }
}

pub(crate) fn push_ttl(out: &mut Vec<char>, t: TTL)
    ensures
        final(out)@ == old(out)@ + ttl_text(t),
{
    let ghost before = out@;
    match t {
        TTL::Value(n) => {
            push_decimal(out, n as u16);
        },
        TTL::Distance(n, d) => {
            push_decimal(out, n as u16);
            push_str(out, "+");
            push_decimal(out, d as u16);
            assert(out@ == before + (decimal(n as nat) + "+"@ + decimal(d as nat)));
        },
        TTL::Guess(n) => {
            push_decimal(out, n as u16);
            push_str(out, "+?");
            assert(out@ == before + (decimal(n as nat) + "+?"@));
        },
        TTL::Bad(n) => {
            push_decimal(out, n as u16);
            push_str(out, "-");
            assert(out@ == before + (decimal(n as nat) + "-"@));
        },
    }
}

pub(crate) fn push_window_size(out: &mut Vec<char>, w: WindowSize)
    ensures
        final(out)@ == old(out)@ + window_size_text(w),
{
    match w {
        WindowSize::MSS(n) => {
            push_str(out, "mss*");
            push_decimal(out, n as u16);
        },
        WindowSize::MTU(n) => {
            push_str(out, "mtu*");
            push_decimal(out, n as u16);
        },
        WindowSize::Value(n) => {
            push_decimal(out, n);
        },
        WindowSize::Mod(n) => {
            push_str(out, "%");
            push_decimal(out, n);
        },
        WindowSize::Any => {
            push_str(out, "*");
        },
    }
}

pub(crate) fn push_tcp_option(out: &mut Vec<char>, o: TcpOption)
    ensures
        final(out)@ == old(out)@ + tcp_option_text(o),
{
    match o {
        TcpOption::EOL(n) => {
            push_str(out, "eol+");
            push_decimal(out, n as u16);
        },
        TcpOption::NOP => push_str(out, "nop"),
        TcpOption::MSS => push_str(out, "mss"),
        TcpOption::WS => push_str(out, "ws"),
        TcpOption::SOK => push_str(out, "sok"),
        TcpOption::SACK => push_str(out, "sack"),
        TcpOption::TS => push_str(out, "ts"),
        TcpOption::Unknown(n) => {
            push_str(out, "?");
            push_decimal(out, n as u16);
        },
    }
}

pub(crate) fn push_quirk(out: &mut Vec<char>, q: Quirk)
    ensures
        final(out)@ == old(out)@ + quirk_text(q),
{
    match q {
        Quirk::DF => push_str(out, "df"),
        Quirk::NonZeroID => push_str(out, "id+"),
        Quirk::ZeroID => push_str(out, "id-"),
        Quirk::ECN => push_str(out, "ecn"),
        Quirk::MustBeZero => push_str(out, "0+"),
        Quirk::FlowID => push_str(out, "flow"),
        Quirk::SeqNumZero => push_str(out, "seq-"),
        Quirk::AckNumNonZero => push_str(out, "ack+"),
        Quirk::AckNumZero => push_str(out, "ack-"),
        Quirk::NonZeroURG => push_str(out, "uptr+"),
        Quirk::URG => push_str(out, "urgf+"),
        Quirk::PUSH => push_str(out, "pushf+"),
        Quirk::OwnTimestampZero => push_str(out, "ts1-"),
        Quirk::PeerTimestampNonZero => push_str(out, "ts2+"),
        Quirk::TrailinigNonZero => push_str(out, "opt+"),
        Quirk::ExcessiveWindowScaling => push_str(out, "exws"),
        Quirk::OptBad => push_str(out, "bad"),
    }
}

pub(crate) fn push_payload_size(out: &mut Vec<char>, p: PayloadSize)
    ensures
        final(out)@ == old(out)@ + payload_size_text(p),
{
    match p {
        PayloadSize::Zero => push_str(out, "0"),
        PayloadSize::NonZero => push_str(out, "+"),
        PayloadSize::Any => push_str(out, "*"),
    }
}

pub(crate) fn push_optional_number(out: &mut Vec<char>, n: Option<u16>)
    ensures
        final(out)@ == old(out)@ + optional_number_text(wide16(n)),
{
    match n {
        Some(n) => push_decimal(out, n),
        None => push_str(out, "*"),
    }
}

pub(crate) fn push_tcp_options(out: &mut Vec<char>, items: &Vec<TcpOption>)
    ensures
        final(out)@ == old(out)@ + joined(items@, tcp_option_form()),
{
    let ghost before = out@;
    let mut i: usize = 0;
    while i < items.len()
        invariant
            i <= items.len(),
            out@ == before + joined(items@.take(i as int), tcp_option_form()),
        decreases items.len() - i,
    {
        if i > 0 {
            push_str(out, ",");
        }
        push_tcp_option(out, items[i]);
        assert(items@.take(i + 1).drop_last() == items@.take(i as int));
        i += 1;
    }
    assert(items@.take(i as int) == items@);
}

pub(crate) fn push_quirks(out: &mut Vec<char>, items: &Vec<Quirk>)
    ensures
        final(out)@ == old(out)@ + joined(items@, quirk_form()),
{
    let ghost before = out@;
    let mut i: usize = 0;
    while i < items.len()
        invariant
            i <= items.len(),
            out@ == before + joined(items@.take(i as int), quirk_form()),
        decreases items.len() - i,
    {
        if i > 0 {
            push_str(out, ",");
        }
        push_quirk(out, items[i]);
        assert(items@.take(i + 1).drop_last() == items@.take(i as int));
        i += 1;
    }
    assert(items@.take(i as int) == items@);
}

pub(crate) fn push_signature(out: &mut Vec<char>, sig: &Signature)
    ensures
        final(out)@ == old(out)@ + signature_text(sig@),
{
    push_ip_version(out, sig.version);
    push_str(out, ":");
    push_ttl(out, sig.ittl);
    push_str(out, ":");
    push_decimal(out, sig.olen as u16);
    push_str(out, ":");
    push_optional_number(out, sig.mss);
    push_str(out, ":");
    push_window_size(out, sig.wsize);
    push_str(out, ",");
    let wscale: Option<u16> = match sig.wscale {
        Some(n) => Some(n as u16),
        None => None,
    };
    push_optional_number(out, wscale);
    push_str(out, ":");
    push_tcp_options(out, &sig.olayout);
    push_str(out, ":");
    push_quirks(out, &sig.quirks);
    push_str(out, ":");
    push_payload_size(out, sig.pclass);
}

impl IpVersion {
    /// The text form, from which the value can be read again.
    pub fn to_text(&self) -> (s: String)
        ensures
            s@ == ip_version_text(*self),
            crate::parse::tcp::ip_version_of(s@) == Ok::<IpVersion, ParseError>(*self),
    {
        proof {
            crate::roundtrip::tcp::ip_version_round_trip(*self);
        }
        let mut out: Vec<char> = Vec::new();
        push_ip_version(&mut out, *self);
        string_of(&out)
    }
}

impl TTL {
    /// The text form, from which the value can be read again.
    pub fn to_text(&self) -> (s: String)
        ensures
            s@ == ttl_text(*self),
            crate::parse::tcp::ttl_of(s@) == Ok::<TTL, ParseError>(*self),
    {
        proof {
            crate::roundtrip::tcp::ttl_round_trip(*self);
        }
        let mut out: Vec<char> = Vec::new();
        push_ttl(&mut out, *self);
        string_of(&out)
    }
}

impl WindowSize {
    /// The text form, from which the value can be read again.
    pub fn to_text(&self) -> (s: String)
        ensures
            s@ == window_size_text(*self),
            crate::parse::tcp::window_size_of(s@) == Ok::<WindowSize, ParseError>(*self),
    {
        proof {
            crate::roundtrip::tcp::window_size_round_trip(*self);
        }
        let mut out: Vec<char> = Vec::new();
        push_window_size(&mut out, *self);
        string_of(&out)
    }
}

impl TcpOption {
    /// The text form, from which the value can be read again.
    pub fn to_text(&self) -> (s: String)
        ensures
            s@ == tcp_option_text(*self),
            crate::parse::tcp::tcp_option_of(s@) == Ok::<TcpOption, ParseError>(*self),
    {
        proof {
            crate::roundtrip::tcp::tcp_option_round_trip(*self);
        }
        let mut out: Vec<char> = Vec::new();
        push_tcp_option(&mut out, *self);
        string_of(&out)
    }
}

impl Quirk {
    /// The text form, from which the value can be read again.
    pub fn to_text(&self) -> (s: String)
        ensures
            s@ == quirk_text(*self),
            crate::parse::tcp::quirk_of(s@) == Ok::<Quirk, ParseError>(*self),
    {
        proof {
            crate::roundtrip::tcp::quirk_round_trip(*self);
        }
        let mut out: Vec<char> = Vec::new();
        push_quirk(&mut out, *self);
        string_of(&out)
    }
}

impl PayloadSize {
    /// The text form, from which the value can be read again.
    pub fn to_text(&self) -> (s: String)
        ensures
            s@ == payload_size_text(*self),
            crate::parse::tcp::payload_size_of(s@) == Ok::<PayloadSize, ParseError>(*self),
    {
        proof {
            crate::roundtrip::tcp::payload_size_round_trip(*self);
        }
        let mut out: Vec<char> = Vec::new();
        push_payload_size(&mut out, *self);
        string_of(&out)
    }
}

impl Signature {
    /// The text form. A signature that lists at least one option can be
    /// read from it again.
    pub fn to_text(&self) -> (s: String)
        ensures
            s@ == signature_text(self@),
            self@.olayout.len() > 0 ==> crate::parse::tcp::signature_of(s@) == Ok::<
                SignatureView,
                ParseError,
            >(self@),
    {
        proof {
            if self@.olayout.len() > 0 {
                crate::roundtrip::tcp::signature_round_trip(self@);
            }
        }
        let mut out: Vec<char> = Vec::new();
        push_signature(&mut out, self);
        string_of(&out)
    }
}

pub open spec fn type_text(t: Type) -> Seq<char> {
    match t {
        Type::Specified => "s"@,
        Type::Generic => "g"@,
    }
}

/// The text of a part that may be absent, with `absent` in its place.
pub open spec fn or_text(part: Option<Seq<char>>, absent: Seq<char>) -> Seq<char> {
    match part {
        Some(text) => text,
        None => absent,
    }
}

/// `type:class:name:flavor`, with `!` for no class and nothing for no flavor.
pub open spec fn label_text(label: LabelView) -> Seq<char> {
    type_text(label.ty) + ":"@ + or_text(label.class, "!"@) + ":"@ + label.name + ":"@ + or_text(
        label.flavor,
        Seq::empty(),
    )
}

pub open spec fn version_text(v: Version) -> Seq<char> {
    match v {
        Version::V10 => "0"@,
        Version::V11 => "1"@,
        Version::Any => "*"@,
    }
}

/// `name=[value]`, or the name alone where the header has no value.
pub open spec fn key_value_text(name: Seq<char>, value: Option<Seq<char>>) -> Seq<char> {
    match value {
        Some(v) => name + "=["@ + v + "]"@,
        None => name,
    }
}

/// `?` where the header is optional, then its name and value.
pub open spec fn header_text(h: HeaderView) -> Seq<char> {
    if h.optional {
        "?"@ + key_value_text(h.name, h.value)
    } else {
        key_value_text(h.name, h.value)
    }
}

pub open spec fn header_form() -> spec_fn(HeaderView) -> Seq<char> {
    |h: HeaderView| header_text(h)
}

/// `version:horder:habsent:expsw`
pub open spec fn http_signature_text(sig: crate::http::SignatureView) -> Seq<char> {
    version_text(sig.version) + ":"@ + joined(sig.horder, header_form()) + ":"@ + joined(
        sig.habsent,
        header_form(),
    ) + ":"@ + sig.expsw
}

pub(crate) fn push_type(out: &mut Vec<char>, t: Type)
    ensures
        final(out)@ == old(out)@ + type_text(t),
{
    match t {
        Type::Specified => push_str(out, "s"),
        Type::Generic => push_str(out, "g"),
    }
}

pub(crate) fn push_label(out: &mut Vec<char>, label: &Label)
    ensures
        final(out)@ == old(out)@ + label_text(label@),
{
    push_type(out, label.ty);
    push_str(out, ":");
    match &label.class {
        Some(class) => push_str(out, class.as_str()),
        None => push_str(out, "!"),
    }
    push_str(out, ":");
    push_str(out, label.name.as_str());
    push_str(out, ":");
    match &label.flavor {
        Some(flavor) => push_str(out, flavor.as_str()),
        None => {},
    }
}

pub(crate) fn push_version(out: &mut Vec<char>, v: Version)
    ensures
        final(out)@ == old(out)@ + version_text(v),
{
    match v {
        Version::V10 => push_str(out, "0"),
        Version::V11 => push_str(out, "1"),
        Version::Any => push_str(out, "*"),
    }
}

pub(crate) fn push_key_value(out: &mut Vec<char>, name: &String, value: &Option<String>)
    ensures
        final(out)@ == old(out)@ + key_value_text(name@, crate::opt_view(*value)),
{
    push_str(out, name.as_str());
    match value {
        Some(v) => {
            push_str(out, "=[");
            push_str(out, v.as_str());
            push_str(out, "]");
        },
        None => {},
    }
}

pub(crate) fn push_header(out: &mut Vec<char>, h: &Header)
    ensures
        final(out)@ == old(out)@ + header_text(h@),
{
    if h.optional {
        push_str(out, "?");
    }
    push_key_value(out, &h.name, &h.value);
}

pub(crate) fn push_headers(out: &mut Vec<char>, items: &Vec<Header>)
    ensures
        final(out)@ == old(out)@ + joined(items.deep_view(), header_form()),
{
    let ghost before = out@;
    let ghost all = items.deep_view();
    let mut i: usize = 0;
    while i < items.len()
        invariant
            i <= items.len(),
            all == items.deep_view(),
            out@ == before + joined(all.take(i as int), header_form()),
        decreases items.len() - i,
    {
        if i > 0 {
            push_str(out, ",");
        }
        push_header(out, &items[i]);
        assert(all.take(i + 1).drop_last() == all.take(i as int));
        i += 1;
    }
    assert(all.take(i as int) == all);
}

pub(crate) fn push_http_signature(out: &mut Vec<char>, sig: &crate::http::Signature)
    ensures
        final(out)@ == old(out)@ + http_signature_text(sig@),
{
    push_version(out, sig.version);
    push_str(out, ":");
    push_headers(out, &sig.horder);
    push_str(out, ":");
    push_headers(out, &sig.habsent);
    push_str(out, ":");
    push_str(out, sig.expsw.as_str());
}

impl Type {
    /// The text form, from which the value can be read again.
    pub fn to_text(&self) -> (s: String)
        ensures
            s@ == type_text(*self),
            crate::parse::label::type_of(s@) == Ok::<Type, ParseError>(*self),
    {
        proof {
            crate::roundtrip::label::type_round_trip(*self);
        }
        let mut out: Vec<char> = Vec::new();
        push_type(&mut out, *self);
        string_of(&out)
    }
}

impl Label {
    /// The text form. A plain label can be read from it again.
    pub fn to_text(&self) -> (s: String)
        ensures
            s@ == label_text(self@),
            self@.is_plain() ==> crate::parse::label::label_of(s@) == Ok::<
                LabelView,
                ParseError,
            >(self@),
    {
        proof {
            if self@.is_plain() {
                crate::roundtrip::label::label_round_trip(self@);
            }
        }
        let mut out: Vec<char> = Vec::new();
        push_label(&mut out, self);
        string_of(&out)
    }
}

impl Version {
    /// The text form.
    pub fn to_text(&self) -> (s: String)
        ensures
            s@ == version_text(*self),
    {
        let mut out: Vec<char> = Vec::new();
        push_version(&mut out, *self);
        string_of(&out)
    }
}

impl Header {
    /// The text form. A plain header can be read from it again.
    pub fn to_text(&self) -> (s: String)
        ensures
            s@ == header_text(self@),
            self@.is_plain() ==> crate::parse::http::header_of(s@) == Ok::<
                HeaderView,
                ParseError,
            >(self@),
    {
        proof {
            if self@.is_plain() {
                crate::roundtrip::http::header_round_trip(self@);
            }
        }
        let mut out: Vec<char> = Vec::new();
        push_header(&mut out, self);
        string_of(&out)
    }
}

impl crate::http::Signature {
    /// The text form. A plain signature can be read from it again.
    pub fn to_text(&self) -> (s: String)
        ensures
            s@ == http_signature_text(self@),
            self@.is_plain() ==> crate::parse::http::signature_of(
                s@,
            ) == Ok::<crate::http::SignatureView, ParseError>(self@),
    {
        proof {
            if self@.is_plain() {
                crate::roundtrip::http::signature_round_trip(self@);
            }
        }
        let mut out: Vec<char> = Vec::new();
        push_http_signature(&mut out, self);
        string_of(&out)
    }
}

} // verus!
