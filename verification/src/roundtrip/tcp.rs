//! TCP signatures and their parts: reading the text form gives the value.

use vstd::prelude::*;
use crate::display::{
    ip_version_text, joined, optional_number_text, payload_size_text, quirk_form, quirk_text,
    signature_text, tcp_option_form, tcp_option_text, ttl_text, wide16, wide8, window_size_text,
};
use crate::parse::tcp::{
    ip_part_at, ip_version_at, ip_version_of, layout_part_at, optional_number_at,
    payload_size_at, payload_size_of, quirk_at, quirk_elem, quirk_of, signature_at, signature_of,
    size_part_at, tcp_option_at, tcp_option_elem, tcp_option_of, ttl_at, ttl_of, window_size_at,
    window_size_of,
};
use crate::parse::{list_at, nonempty_list_at, ParseError};
use crate::roundtrip::{
    ends_item, lemma_decimal, lemma_list_rest_keeps, lemma_nonempty_list_at, lemma_number_at,
    lemma_starts_at_char, lemma_starts_at_self, lemma_starts_at_split, reads_back,
};
use crate::tcp::{IpVersion, PayloadSize, Quirk, SignatureView, TcpOption, WindowSize, TTL};
use crate::text::{decimal, has_char, is_digit, starts_at};

verus! {

/// Whether a number may end before position `j`: no digit stands there.
pub open spec fn ends_number(s: Seq<char>, j: int) -> bool {
    !(0 <= j < s.len() && is_digit(s[j]))
}

/// Whether a TTL may end before position `j`: neither a digit nor a sign
/// stands there.
pub open spec fn ends_ttl(s: Seq<char>, j: int) -> bool {
    !(0 <= j < s.len() && (is_digit(s[j]) || s[j] == '+' || s[j] == '-'))
}

pub(crate) proof fn lemma_ip_version_at(s: Seq<char>, i: int, v: IpVersion)
    requires
        starts_at(s, i, ip_version_text(v)),
    ensures
        ip_version_at(s, i) == Some((v, i + ip_version_text(v).len())),
{
    reveal_strlit("4");
    reveal_strlit("6");
    reveal_strlit("*");
    lemma_starts_at_char(s, i, ip_version_text(v));
}

pub(crate) proof fn lemma_payload_size_at(s: Seq<char>, i: int, p: PayloadSize)
    requires
        starts_at(s, i, payload_size_text(p)),
    ensures
        payload_size_at(s, i) == Some((p, i + payload_size_text(p).len())),
{
    reveal_strlit("0");
    reveal_strlit("+");
    reveal_strlit("*");
    lemma_starts_at_char(s, i, payload_size_text(p));
}

pub(crate) proof fn lemma_ttl_at(s: Seq<char>, i: int, t: TTL)
    requires
        starts_at(s, i, ttl_text(t)),
        ends_ttl(s, i + ttl_text(t).len()),
    ensures
        ttl_at(s, i) == Some((t, i + ttl_text(t).len())),
{
    reveal_strlit("+");
    reveal_strlit("+?");
    reveal_strlit("-");
    match t {
        TTL::Value(n) => {
            lemma_number_at(s, i, n as nat, 255);
            let j = i + decimal(n as nat).len();
            if starts_at(s, j, "+?"@) {
                assert(s.subrange(j, j + 2)[0] == s[j]);
            }
        },
        TTL::Distance(n, d) => {
            let dn = decimal(n as nat);
            let dd = decimal(d as nat);
            lemma_decimal(d as nat);
            lemma_starts_at_split(s, i, dn + "+"@, dd);
            lemma_starts_at_split(s, i, dn, "+"@);
            let j = i + dn.len();
            lemma_starts_at_char(s, j, "+"@);
            lemma_number_at(s, i, n as nat, 255);
            assert(s[j + 1] == s.subrange(j + 1, j + 1 + dd.len())[0]);
            assert(is_digit(dd[0]));
            if starts_at(s, j, "+?"@) {
                assert(s.subrange(j, j + 2)[1] == s[j + 1]);
            }
            lemma_number_at(s, j + 1, d as nat, 255);
        },
        TTL::Guess(n) => {
            let dn = decimal(n as nat);
            lemma_starts_at_split(s, i, dn, "+?"@);
            let j = i + dn.len();
            assert(s.subrange(j, j + 2)[0] == s[j]);
            lemma_number_at(s, i, n as nat, 255);
        },
        TTL::Bad(n) => {
            let dn = decimal(n as nat);
            lemma_starts_at_split(s, i, dn, "-"@);
            let j = i + dn.len();
            lemma_starts_at_char(s, j, "-"@);
            lemma_number_at(s, i, n as nat, 255);
        },
    }
}

pub(crate) proof fn lemma_window_size_at(s: Seq<char>, i: int, w: WindowSize)
    requires
        starts_at(s, i, window_size_text(w)),
        ends_number(s, i + window_size_text(w).len()),
    ensures
        window_size_at(s, i) == Some((w, i + window_size_text(w).len())),
{
    reveal_strlit("*");
    reveal_strlit("mss*");
    reveal_strlit("mtu*");
    reveal_strlit("%");
    match w {
        WindowSize::Any => {
            lemma_starts_at_char(s, i, "*"@);
        },
        WindowSize::MSS(n) => {
            lemma_starts_at_split(s, i, "mss*"@, decimal(n as nat));
            assert(s.subrange(i, i + 4)[0] == s[i]);
            lemma_number_at(s, i + 4, n as nat, 255);
        },
        WindowSize::MTU(n) => {
            lemma_starts_at_split(s, i, "mtu*"@, decimal(n as nat));
            assert(s.subrange(i, i + 4)[0] == s[i]);
            assert(s.subrange(i, i + 4)[1] == s[i + 1]);
            if starts_at(s, i, "mss*"@) {
                assert(s.subrange(i, i + 4)[1] == 's');
            }
            lemma_number_at(s, i + 4, n as nat, 255);
        },
        WindowSize::Mod(n) => {
            lemma_starts_at_split(s, i, "%"@, decimal(n as nat));
            lemma_starts_at_char(s, i, "%"@);
            if starts_at(s, i, "mss*"@) || starts_at(s, i, "mtu*"@) {
                assert(s.subrange(i, i + 4)[0] == s[i]);
            }
            lemma_number_at(s, i + 1, n as nat, 65535);
        },
        WindowSize::Value(n) => {
            lemma_decimal(n as nat);
            let d = decimal(n as nat);
            assert(s[i] == s.subrange(i, i + d.len())[0]);
            assert(is_digit(d[0]));
            if starts_at(s, i, "mss*"@) || starts_at(s, i, "mtu*"@) {
                assert(s.subrange(i, i + 4)[0] == s[i]);
            }
            lemma_number_at(s, i, n as nat, 65535);
        },
    }
}

/// The first four characters of a text that stands at `i`.
proof fn lemma_first_chars(s: Seq<char>, i: int, lit: Seq<char>)
    requires
        starts_at(s, i, lit),
    ensures
        lit.len() > 0 ==> s[i] == lit[0],
        lit.len() > 1 ==> s[i + 1] == lit[1],
        lit.len() > 2 ==> s[i + 2] == lit[2],
        lit.len() > 3 ==> s[i + 3] == lit[3],
{
    let part = s.subrange(i, i + lit.len());
    if lit.len() > 0 {
        assert(part[0] == s[i]);
    }
    if lit.len() > 1 {
        assert(part[1] == s[i + 1]);
    }
    if lit.len() > 2 {
        assert(part[2] == s[i + 2]);
    }
    if lit.len() > 3 {
        assert(part[3] == s[i + 3]);
    }
}

pub(crate) proof fn lemma_tcp_option_at(s: Seq<char>, i: int, o: TcpOption)
    requires
        starts_at(s, i, tcp_option_text(o)),
        ends_number(s, i + tcp_option_text(o).len()),
    ensures
        tcp_option_at(s, i) == Some((o, i + tcp_option_text(o).len())),
{
    reveal_strlit("eol+");
    reveal_strlit("nop");
    reveal_strlit("mss");
    reveal_strlit("ws");
    reveal_strlit("sok");
    reveal_strlit("sack");
    reveal_strlit("ts");
    reveal_strlit("?");
    if starts_at(s, i, "eol+"@) {
        lemma_first_chars(s, i, "eol+"@);
    }
    if starts_at(s, i, "nop"@) {
        lemma_first_chars(s, i, "nop"@);
    }
    if starts_at(s, i, "mss"@) {
        lemma_first_chars(s, i, "mss"@);
    }
    if starts_at(s, i, "ws"@) {
        lemma_first_chars(s, i, "ws"@);
    }
    if starts_at(s, i, "sok"@) {
        lemma_first_chars(s, i, "sok"@);
    }
    if starts_at(s, i, "sack"@) {
        lemma_first_chars(s, i, "sack"@);
    }
    if starts_at(s, i, "ts"@) {
        lemma_first_chars(s, i, "ts"@);
    }
    match o {
        TcpOption::EOL(n) => {
            lemma_starts_at_split(s, i, "eol+"@, decimal(n as nat));
            lemma_number_at(s, i + 4, n as nat, 255);
        },
        TcpOption::Unknown(n) => {
            lemma_starts_at_split(s, i, "?"@, decimal(n as nat));
            lemma_starts_at_char(s, i, "?"@);
            lemma_number_at(s, i + 1, n as nat, 255);
        },
        _ => {},
    }
}

pub(crate) proof fn lemma_quirk_at(s: Seq<char>, i: int, q: Quirk)
    requires
        starts_at(s, i, quirk_text(q)),
    ensures
        quirk_at(s, i) == Some((q, i + quirk_text(q).len())),
{
    reveal_strlit("df");
    reveal_strlit("id+");
    reveal_strlit("id-");
    reveal_strlit("ecn");
    reveal_strlit("0+");
    reveal_strlit("flow");
    reveal_strlit("seq-");
    reveal_strlit("ack+");
    reveal_strlit("ack-");
    reveal_strlit("uptr+");
    reveal_strlit("urgf+");
    reveal_strlit("pushf+");
    reveal_strlit("ts1-");
    reveal_strlit("ts2+");
    reveal_strlit("opt+");
    reveal_strlit("exws");
    reveal_strlit("bad");
    if starts_at(s, i, "df"@) {
        lemma_first_chars(s, i, "df"@);
    }
    if starts_at(s, i, "id+"@) {
        lemma_first_chars(s, i, "id+"@);
    }
    if starts_at(s, i, "id-"@) {
        lemma_first_chars(s, i, "id-"@);
    }
    if starts_at(s, i, "ecn"@) {
        lemma_first_chars(s, i, "ecn"@);
    }
    if starts_at(s, i, "0+"@) {
        lemma_first_chars(s, i, "0+"@);
    }
    if starts_at(s, i, "flow"@) {
        lemma_first_chars(s, i, "flow"@);
    }
    if starts_at(s, i, "seq-"@) {
        lemma_first_chars(s, i, "seq-"@);
    }
    if starts_at(s, i, "ack+"@) {
        lemma_first_chars(s, i, "ack+"@);
    }
    if starts_at(s, i, "ack-"@) {
        lemma_first_chars(s, i, "ack-"@);
    }
    if starts_at(s, i, "uptr+"@) {
        lemma_first_chars(s, i, "uptr+"@);
    }
    if starts_at(s, i, "urgf+"@) {
        lemma_first_chars(s, i, "urgf+"@);
    }
    if starts_at(s, i, "pushf+"@) {
        lemma_first_chars(s, i, "pushf+"@);
    }
    if starts_at(s, i, "ts1-"@) {
        lemma_first_chars(s, i, "ts1-"@);
    }
    if starts_at(s, i, "ts2+"@) {
        lemma_first_chars(s, i, "ts2+"@);
    }
    if starts_at(s, i, "opt+"@) {
        lemma_first_chars(s, i, "opt+"@);
    }
    if starts_at(s, i, "exws"@) {
        lemma_first_chars(s, i, "exws"@);
    }
    if starts_at(s, i, "bad"@) {
        lemma_first_chars(s, i, "bad"@);
    }
}

pub(crate) proof fn lemma_optional_number_at(s: Seq<char>, i: int, n: Option<nat>, max: nat)
    requires
        starts_at(s, i, optional_number_text(n)),
        ends_number(s, i + optional_number_text(n).len()),
        n is Some ==> n.unwrap() <= max,
    ensures
        optional_number_at(s, i, max) == Some((n, i + optional_number_text(n).len())),
{
    reveal_strlit("*");
    match n {
        Some(n) => {
            lemma_decimal(n);
            let d = decimal(n);
            assert(s[i] == s.subrange(i, i + d.len())[0]);
            assert(is_digit(d[0]));
            lemma_number_at(s, i, n, max);
        },
        None => {
            lemma_starts_at_char(s, i, "*"@);
        },
    }
}

/// A TCP option is read back wherever its text stands and ends.
pub(crate) proof fn lemma_tcp_option_reads_back(s: Seq<char>, o: TcpOption)
    ensures
        reads_back(tcp_option_elem(), tcp_option_form(), s, o),
{
    reveal_strlit("eol+");
    reveal_strlit("nop");
    reveal_strlit("mss");
    reveal_strlit("ws");
    reveal_strlit("sok");
    reveal_strlit("sack");
    reveal_strlit("ts");
    reveal_strlit("?");
    let text = tcp_option_text(o);
    assert(text.len() > 0);
    assert forall|p: int| starts_at(s, p, text) && ends_item(s, p + text.len()) implies (
    #[trigger] tcp_option_elem()(s, p)) == Some((o, p + text.len())) by {
        lemma_tcp_option_at(s, p, o);
    }
}

/// A quirk is read back wherever its text stands.
pub(crate) proof fn lemma_quirk_reads_back(s: Seq<char>, q: Quirk)
    ensures
        reads_back(quirk_elem(), quirk_form(), s, q),
{
    reveal_strlit("df");
    reveal_strlit("id+");
    reveal_strlit("id-");
    reveal_strlit("ecn");
    reveal_strlit("0+");
    reveal_strlit("flow");
    reveal_strlit("seq-");
    reveal_strlit("ack+");
    reveal_strlit("ack-");
    reveal_strlit("uptr+");
    reveal_strlit("urgf+");
    reveal_strlit("pushf+");
    reveal_strlit("ts1-");
    reveal_strlit("ts2+");
    reveal_strlit("opt+");
    reveal_strlit("exws");
    reveal_strlit("bad");
    let text = quirk_text(q);
    assert(text.len() > 0);
    assert forall|p: int| starts_at(s, p, text) && ends_item(s, p + text.len()) implies (
    #[trigger] quirk_elem()(s, p)) == Some((q, p + text.len())) by {
        lemma_quirk_at(s, p, q);
    }
}

/// No quirk begins with a colon.
proof fn lemma_no_quirk_at_colon(s: Seq<char>, i: int)
    requires
        has_char(s, i, ':'),
    ensures
        quirk_at(s, i) is None,
{
    reveal_strlit("df");
    reveal_strlit("id+");
    reveal_strlit("id-");
    reveal_strlit("ecn");
    reveal_strlit("0+");
    reveal_strlit("flow");
    reveal_strlit("seq-");
    reveal_strlit("ack+");
    reveal_strlit("ack-");
    reveal_strlit("uptr+");
    reveal_strlit("urgf+");
    reveal_strlit("pushf+");
    reveal_strlit("ts1-");
    reveal_strlit("ts2+");
    reveal_strlit("opt+");
    reveal_strlit("exws");
    reveal_strlit("bad");
    if quirk_at(s, i) is Some {
        let q = quirk_at(s, i).unwrap().0;
        assert(starts_at(s, i, quirk_text(q)));
        lemma_first_chars(s, i, quirk_text(q));
    }
}

/// The quirks of a signature are read back from their text, where a colon
/// follows it.
proof fn lemma_quirks_at(s: Seq<char>, i: int, quirks: Seq<Quirk>)
    requires
        starts_at(s, i, joined(quirks, quirk_form())),
        has_char(s, i + joined(quirks, quirk_form()).len(), ':'),
    ensures
        list_at(quirk_elem(), s, i) == Some((quirks, i + joined(quirks, quirk_form()).len())),
{
    if quirks.len() == 0 {
        lemma_no_quirk_at_colon(s, i);
        assert(quirks =~= Seq::<Quirk>::empty());
    } else {
        assert forall|k: int| 0 <= k < quirks.len() implies reads_back(
            quirk_elem(),
            quirk_form(),
            s,
            #[trigger] quirks[k],
        ) by {
            lemma_quirk_reads_back(s, quirks[k]);
        }
        lemma_nonempty_list_at(quirk_elem(), quirk_form(), s, i, quirks);
    }
}

/// The options of a signature are read back from their text, where a colon
/// follows it.
proof fn lemma_tcp_options_at(s: Seq<char>, i: int, options: Seq<TcpOption>)
    requires
        options.len() > 0,
        starts_at(s, i, joined(options, tcp_option_form())),
        has_char(s, i + joined(options, tcp_option_form()).len(), ':'),
    ensures
        nonempty_list_at(tcp_option_elem(), s, i) == Some(
            (options, i + joined(options, tcp_option_form()).len()),
        ),
{
    assert forall|k: int| 0 <= k < options.len() implies reads_back(
        tcp_option_elem(),
        tcp_option_form(),
        s,
        #[trigger] options[k],
    ) by {
        lemma_tcp_option_reads_back(s, options[k]);
    }
    lemma_nonempty_list_at(tcp_option_elem(), tcp_option_form(), s, i, options);
}

/// A signature with at least one option is read back wherever its text
/// stands.
pub(crate) proof fn lemma_signature_at(s: Seq<char>, i: int, sig: SignatureView)
    requires
        sig.olayout.len() > 0,
        starts_at(s, i, signature_text(sig)),
    ensures
        signature_at(s, i) == Ok::<(SignatureView, int), int>(
            (sig, i + signature_text(sig).len()),
        ),
{
    reveal_strlit(":");
    reveal_strlit(",");
    let c = ":"@;
    let version = ip_version_text(sig.version);
    let ttl = ttl_text(sig.ittl);
    let olen = decimal(sig.olen as nat);
    let mss = optional_number_text(wide16(sig.mss));
    let wsize = window_size_text(sig.wsize);
    let wscale = optional_number_text(wide8(sig.wscale));
    let olayout = joined(sig.olayout, tcp_option_form());
    let quirks = joined(sig.quirks, quirk_form());
    let pclass = payload_size_text(sig.pclass);
    let p1 = version;
    let p2 = p1 + c;
    let p3 = p2 + ttl;
    let p4 = p3 + c;
    let p5 = p4 + olen;
    let p6 = p5 + c;
    let p7 = p6 + mss;
    let p8 = p7 + c;
    let p9 = p8 + wsize;
    let p10 = p9 + ","@;
    let p11 = p10 + wscale;
    let p12 = p11 + c;
    let p13 = p12 + olayout;
    let p14 = p13 + c;
    let p15 = p14 + quirks;
    let p16 = p15 + c;
    assert(signature_text(sig) == p16 + pclass);
    lemma_starts_at_split(s, i, p16, pclass);
    lemma_starts_at_split(s, i, p15, c);
    lemma_starts_at_split(s, i, p14, quirks);
    lemma_starts_at_split(s, i, p13, c);
    lemma_starts_at_split(s, i, p12, olayout);
    lemma_starts_at_split(s, i, p11, c);
    lemma_starts_at_split(s, i, p10, wscale);
    lemma_starts_at_split(s, i, p9, ","@);
    lemma_starts_at_split(s, i, p8, wsize);
    lemma_starts_at_split(s, i, p7, c);
    lemma_starts_at_split(s, i, p6, mss);
    lemma_starts_at_split(s, i, p5, c);
    lemma_starts_at_split(s, i, p4, olen);
    lemma_starts_at_split(s, i, p3, c);
    lemma_starts_at_split(s, i, p2, ttl);
    lemma_starts_at_split(s, i, p1, c);
    lemma_starts_at_char(s, i + p1.len(), c);
    lemma_starts_at_char(s, i + p3.len(), c);
    lemma_starts_at_char(s, i + p5.len(), c);
    lemma_starts_at_char(s, i + p7.len(), c);
    lemma_starts_at_char(s, i + p9.len(), ","@);
    lemma_starts_at_char(s, i + p11.len(), c);
    lemma_starts_at_char(s, i + p13.len(), c);
    lemma_starts_at_char(s, i + p15.len(), c);
    lemma_ip_version_at(s, i, sig.version);
    lemma_ttl_at(s, i + p2.len(), sig.ittl);
    lemma_number_at(s, i + p4.len(), sig.olen as nat, 255);
    assert(ip_part_at(s, i) == Ok::<((IpVersion, TTL, u8), int), int>(
        ((sig.version, sig.ittl, sig.olen), i + p5.len()),
    ));
    lemma_optional_number_at(s, i + p6.len(), wide16(sig.mss), 65535);
    lemma_window_size_at(s, i + p8.len(), sig.wsize);
    lemma_optional_number_at(s, i + p10.len(), wide8(sig.wscale), 255);
    assert(size_part_at(s, i + p6.len()) == Ok::<
        ((Option<u16>, WindowSize, Option<u8>), int),
        int,
    >(((sig.mss, sig.wsize, sig.wscale), i + p11.len())));
    lemma_tcp_options_at(s, i + p12.len(), sig.olayout);
    lemma_quirks_at(s, i + p14.len(), sig.quirks);
    lemma_payload_size_at(s, i + p16.len(), sig.pclass);
    assert(layout_part_at(s, i + p12.len()) == Ok::<
        ((Seq<TcpOption>, Seq<Quirk>, PayloadSize), int),
        int,
    >(((sig.olayout, sig.quirks, sig.pclass), i + (p16 + pclass).len())));
}

/// Reading the text form of an IP version gives the version.
pub proof fn ip_version_round_trip(v: IpVersion)
    ensures
        ip_version_of(ip_version_text(v)) == Ok::<IpVersion, ParseError>(v),
{
    lemma_starts_at_self(ip_version_text(v));
    lemma_ip_version_at(ip_version_text(v), 0, v);
}

/// Reading the text form of a TTL gives the TTL.
pub proof fn ttl_round_trip(t: TTL)
    ensures
        ttl_of(ttl_text(t)) == Ok::<TTL, ParseError>(t),
{
    lemma_starts_at_self(ttl_text(t));
    lemma_ttl_at(ttl_text(t), 0, t);
}

/// Reading the text form of a window size gives the window size.
pub proof fn window_size_round_trip(w: WindowSize)
    ensures
        window_size_of(window_size_text(w)) == Ok::<WindowSize, ParseError>(w),
{
    lemma_starts_at_self(window_size_text(w));
    lemma_window_size_at(window_size_text(w), 0, w);
}

/// Reading the text form of a TCP option gives the option.
pub proof fn tcp_option_round_trip(o: TcpOption)
    ensures
        tcp_option_of(tcp_option_text(o)) == Ok::<TcpOption, ParseError>(o),
{
    lemma_starts_at_self(tcp_option_text(o));
    lemma_tcp_option_at(tcp_option_text(o), 0, o);
}

/// Reading the text form of a quirk gives the quirk.
pub proof fn quirk_round_trip(q: Quirk)
    ensures
        quirk_of(quirk_text(q)) == Ok::<Quirk, ParseError>(q),
{
    lemma_starts_at_self(quirk_text(q));
    lemma_quirk_at(quirk_text(q), 0, q);
}

/// Reading the text form of a payload class gives the class.
pub proof fn payload_size_round_trip(p: PayloadSize)
    ensures
        payload_size_of(payload_size_text(p)) == Ok::<PayloadSize, ParseError>(p),
{
    lemma_starts_at_self(payload_size_text(p));
    lemma_payload_size_at(payload_size_text(p), 0, p);
}

/// Reading the text form of a signature that lists at least one option
/// gives the signature.
pub proof fn signature_round_trip(sig: SignatureView)
    requires
        sig.olayout.len() > 0,
    ensures
        signature_of(signature_text(sig)) == Ok::<SignatureView, ParseError>(sig),
{
    lemma_starts_at_self(signature_text(sig));
    lemma_signature_at(signature_text(sig), 0, sig);
}

/// A signature that was read from a text lists at least one option.
pub proof fn signature_read_has_options(s: Seq<char>)
    ensures
        match signature_of(s) {
            Ok(sig) => sig.olayout.len() > 0,
            Err(_) => true,
        },
{
    match signature_at(s, 0) {
        Ok((sig, _)) => {
            let a = ip_part_at(s, 0)->Ok_0.1;
            let b = size_part_at(s, a + 1)->Ok_0.1;
            match tcp_option_at(s, b + 1) {
                Some((first, j)) => {
                    lemma_list_rest_keeps(tcp_option_elem(), s, j, seq![first]);
                },
                None => {},
            }
        },
        Err(_) => {},
    }
}

/// A signature that was read from a text is read again from its own text
/// form: writing and reading it changes nothing.
pub proof fn signature_read_again(s: Seq<char>)
    ensures
        match signature_of(s) {
            Ok(sig) => signature_of(signature_text(sig)) == Ok::<SignatureView, ParseError>(sig),
            Err(_) => true,
        },
{
    signature_read_has_options(s);
    match signature_of(s) {
        Ok(sig) => {
            signature_round_trip(sig);
        },
        Err(_) => {},
    }
}

/// A text form is written again as it was: what is read from the text
/// form of a TTL has that text form.
pub proof fn ttl_text_stable(t: TTL)
    ensures
        match ttl_of(ttl_text(t)) {
            Ok(read) => ttl_text(read) == ttl_text(t),
            Err(_) => false,
        },
{
    ttl_round_trip(t);
}

/// What is read from the text form of a window size has that text form.
pub proof fn window_size_text_stable(w: WindowSize)
    ensures
        match window_size_of(window_size_text(w)) {
            Ok(read) => window_size_text(read) == window_size_text(w),
            Err(_) => false,
        },
{
    window_size_round_trip(w);
}

/// What is read from the text form of a TCP option has that text form.
pub proof fn tcp_option_text_stable(o: TcpOption)
    ensures
        match tcp_option_of(tcp_option_text(o)) {
            Ok(read) => tcp_option_text(read) == tcp_option_text(o),
            Err(_) => false,
        },
{
    tcp_option_round_trip(o);
}

/// What is read from the text form of a quirk has that text form.
pub proof fn quirk_text_stable(q: Quirk)
    ensures
        match quirk_of(quirk_text(q)) {
            Ok(read) => quirk_text(read) == quirk_text(q),
            Err(_) => false,
        },
{
    quirk_round_trip(q);
}

/// What is read from the text form of a signature that lists at least one
/// option has that text form.
pub proof fn signature_text_stable(sig: SignatureView)
    requires
        sig.olayout.len() > 0,
    ensures
        match signature_of(signature_text(sig)) {
            Ok(read) => signature_text(read) == signature_text(sig),
            Err(_) => false,
        },
{
    signature_round_trip(sig);
}

} // verus!
