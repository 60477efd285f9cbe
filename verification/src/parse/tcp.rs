//! The grammar of TCP signatures and of their parts.

use vstd::prelude::*;
use crate::parse::{
    finish, list_at, list_rest, nonempty_list_at, or_fail, or_fail_at, reads, reads_or, whole,
    ParseError, Step,
};
use core::str::FromStr;
use crate::tcp::{
    IpVersion, PayloadSize, Quirk, Signature, SignatureView, TcpOption, WindowSize, TTL,
};
use crate::text::{chars_of, eat, eat_char, has_char, number_at, read_number, starts_at};

verus! {

/// `4`, `6` or `*`.
pub open spec fn ip_version_at(s: Seq<char>, i: int) -> Step<IpVersion> {
    if has_char(s, i, '4') {
        Some((IpVersion::V4, i + 1))
    } else if has_char(s, i, '6') {
        Some((IpVersion::V6, i + 1))
    } else if has_char(s, i, '*') {
        Some((IpVersion::Any, i + 1))
    } else {
        None
    }
}

/// A TTL: `n-` is bad, `n+?` guessed, `n+d` seen at a distance, `n` plain.
pub open spec fn ttl_at(s: Seq<char>, i: int) -> Step<TTL> {
    match number_at(s, i, 255) {
        Some((n, j)) => if has_char(s, j, '-') {
            Some((TTL::Bad(n as u8), j + 1))
        } else if starts_at(s, j, "+?"@) {
            Some((TTL::Guess(n as u8), j + 2))
        } else if has_char(s, j, '+') && number_at(s, j + 1, 255) is Some {
            let (d, k) = number_at(s, j + 1, 255).unwrap();
            Some((TTL::Distance(n as u8, d as u8), k))
        } else {
            Some((TTL::Value(n as u8), j))
        },
        None => None,
    }
}

/// A window size: `*`, `mss*n`, `mtu*n`, `%n` or `n`.
pub open spec fn window_size_at(s: Seq<char>, i: int) -> Step<WindowSize> {
    if has_char(s, i, '*') {
        Some((WindowSize::Any, i + 1))
    } else if starts_at(s, i, "mss*"@) {
        match number_at(s, i + 4, 255) {
            Some((n, j)) => Some((WindowSize::MSS(n as u8), j)),
            None => None,
        }
    } else if starts_at(s, i, "mtu*"@) {
        match number_at(s, i + 4, 255) {
            Some((n, j)) => Some((WindowSize::MTU(n as u8), j)),
            None => None,
        }
    } else if has_char(s, i, '%') {
        match number_at(s, i + 1, 65535) {
            Some((n, j)) => Some((WindowSize::Mod(n as u16), j)),
            None => None,
        }
    } else {
        match number_at(s, i, 65535) {
            Some((n, j)) => Some((WindowSize::Value(n as u16), j)),
            None => None,
        }
    }
}

/// A TCP option by its token.
pub open spec fn tcp_option_at(s: Seq<char>, i: int) -> Step<TcpOption> {
    if starts_at(s, i, "eol+"@) {
        match number_at(s, i + 4, 255) {
            Some((n, j)) => Some((TcpOption::EOL(n as u8), j)),
            None => None,
        }
    } else if starts_at(s, i, "nop"@) {
        Some((TcpOption::NOP, i + 3))
    } else if starts_at(s, i, "mss"@) {
        Some((TcpOption::MSS, i + 3))
    } else if starts_at(s, i, "ws"@) {
        Some((TcpOption::WS, i + 2))
    } else if starts_at(s, i, "sok"@) {
        Some((TcpOption::SOK, i + 3))
    } else if starts_at(s, i, "sack"@) {
        Some((TcpOption::SACK, i + 4))
    } else if starts_at(s, i, "ts"@) {
        Some((TcpOption::TS, i + 2))
    } else if has_char(s, i, '?') {
        match number_at(s, i + 1, 255) {
            Some((n, j)) => Some((TcpOption::Unknown(n as u8), j)),
            None => None,
        }
    } else {
        None
    }
}

/// A quirk by its token.
pub open spec fn quirk_at(s: Seq<char>, i: int) -> Step<Quirk> {
    if starts_at(s, i, "df"@) {
        Some((Quirk::DF, i + 2))
    } else if starts_at(s, i, "id+"@) {
        Some((Quirk::NonZeroID, i + 3))
    } else if starts_at(s, i, "id-"@) {
        Some((Quirk::ZeroID, i + 3))
    } else if starts_at(s, i, "ecn"@) {
        Some((Quirk::ECN, i + 3))
    } else if starts_at(s, i, "0+"@) {
        Some((Quirk::MustBeZero, i + 2))
    } else if starts_at(s, i, "flow"@) {
        Some((Quirk::FlowID, i + 4))
    } else if starts_at(s, i, "seq-"@) {
        Some((Quirk::SeqNumZero, i + 4))
    } else if starts_at(s, i, "ack+"@) {
        Some((Quirk::AckNumNonZero, i + 4))
    } else if starts_at(s, i, "ack-"@) {
        Some((Quirk::AckNumZero, i + 4))
    } else if starts_at(s, i, "uptr+"@) {
        Some((Quirk::NonZeroURG, i + 5))
    } else if starts_at(s, i, "urgf+"@) {
        Some((Quirk::URG, i + 5))
    } else if starts_at(s, i, "pushf+"@) {
        Some((Quirk::PUSH, i + 6))
    } else if starts_at(s, i, "ts1-"@) {
        Some((Quirk::OwnTimestampZero, i + 4))
    } else if starts_at(s, i, "ts2+"@) {
        Some((Quirk::PeerTimestampNonZero, i + 4))
    } else if starts_at(s, i, "opt+"@) {
        Some((Quirk::TrailinigNonZero, i + 4))
    } else if starts_at(s, i, "exws"@) {
        Some((Quirk::ExcessiveWindowScaling, i + 4))
    } else if starts_at(s, i, "bad"@) {
        Some((Quirk::OptBad, i + 3))
    } else {
        None
    }
}

/// `0`, `+` or `*`.
pub open spec fn payload_size_at(s: Seq<char>, i: int) -> Step<PayloadSize> {
    if has_char(s, i, '0') {
        Some((PayloadSize::Zero, i + 1))
    } else if has_char(s, i, '+') {
        Some((PayloadSize::NonZero, i + 1))
    } else if has_char(s, i, '*') {
        Some((PayloadSize::Any, i + 1))
    } else {
        None
    }
}

/// A number of at most `max`, or `*` where none is given.
pub open spec fn optional_number_at(s: Seq<char>, i: int, max: nat) -> Step<Option<nat>> {
    if has_char(s, i, '*') {
        Some((None, i + 1))
    } else {
        match number_at(s, i, max) {
            Some((n, j)) => Some((Some(n), j)),
            None => None,
        }
    }
}

/// The reading of one TCP option, as a list element.
pub open spec fn tcp_option_elem() -> spec_fn(Seq<char>, int) -> Step<TcpOption> {
    |s: Seq<char>, i: int| tcp_option_at(s, i)
}

/// The reading of one quirk, as a list element.
pub open spec fn quirk_elem() -> spec_fn(Seq<char>, int) -> Step<Quirk> {
    |s: Seq<char>, i: int| quirk_at(s, i)
}

/// What the IP header gave: `version:ittl:olen`.
pub open spec fn ip_part_at(s: Seq<char>, i: int) -> Result<((IpVersion, TTL, u8), int), int> {
    match ip_version_at(s, i) {
        None => Err(i),
        Some((version, a)) => if !has_char(s, a, ':') {
            Err(a)
        } else {
            match ttl_at(s, a + 1) {
                None => Err(a + 1),
                Some((ittl, b)) => if !has_char(s, b, ':') {
                    Err(b)
                } else {
                    match number_at(s, b + 1, 255) {
                        None => Err(b + 1),
                        Some((olen, c)) => Ok(((version, ittl, olen as u8), c)),
                    }
                },
            }
        },
    }
}

/// The sizes that the TCP header and its options gave: `mss:wsize,wscale`.
pub open spec fn size_part_at(s: Seq<char>, i: int) -> Result<
    ((Option<u16>, WindowSize, Option<u8>), int),
    int,
> {
    match optional_number_at(s, i, 65535) {
        None => Err(i),
        Some((mss, a)) => if !has_char(s, a, ':') {
            Err(a)
        } else {
            match window_size_at(s, a + 1) {
                None => Err(a + 1),
                Some((wsize, b)) => if !has_char(s, b, ',') {
                    Err(b)
                } else {
                    match optional_number_at(s, b + 1, 255) {
                        None => Err(b + 1),
                        Some((wscale, c)) => Ok(
                            ((narrow16(mss), wsize, narrow8(wscale)), c),
                        ),
                    }
                },
            }
        },
    }
}

/// What was seen of the options and the rest: `olayout:quirks:pclass`, the
/// first a list of at least one option, the second a list of quirks.
pub open spec fn layout_part_at(s: Seq<char>, i: int) -> Result<
    ((Seq<TcpOption>, Seq<Quirk>, PayloadSize), int),
    int,
> {
    match nonempty_list_at(tcp_option_elem(), s, i) {
        None => Err(i),
        Some((olayout, a)) => if !has_char(s, a, ':') {
            Err(a)
        } else {
            match list_at(quirk_elem(), s, a + 1) {
                None => Err(a + 1),
                Some((quirks, b)) => if !has_char(s, b, ':') {
                    Err(b)
                } else {
                    match payload_size_at(s, b + 1) {
                        None => Err(b + 1),
                        Some((pclass, c)) => Ok(((olayout, quirks, pclass), c)),
                    }
                },
            }
        },
    }
}

pub open spec fn narrow16(n: Option<nat>) -> Option<u16> {
    match n {
        Some(n) => Some(n as u16),
        None => None,
    }
}

pub open spec fn narrow8(n: Option<nat>) -> Option<u8> {
    match n {
        Some(n) => Some(n as u8),
        None => None,
    }
}

/// A TCP signature at `i`: its three parts, with a colon between them. On
/// failure, the position at which the grammar was left.
pub open spec fn signature_at(s: Seq<char>, i: int) -> Result<(SignatureView, int), int> {
    match ip_part_at(s, i) {
        Err(at) => Err(at),
        Ok(((version, ittl, olen), a)) => if !has_char(s, a, ':') {
            Err(a)
        } else {
            match size_part_at(s, a + 1) {
                Err(at) => Err(at),
                Ok(((mss, wsize, wscale), b)) => if !has_char(s, b, ':') {
                    Err(b)
                } else {
                    match layout_part_at(s, b + 1) {
                        Err(at) => Err(at),
                        Ok(((olayout, quirks, pclass), c)) => Ok(
                            (
                                SignatureView {
                                    version,
                                    ittl,
                                    olen,
                                    mss,
                                    wsize,
                                    wscale,
                                    olayout,
                                    quirks,
                                    pclass,
                                },
                                c,
                            ),
                        ),
                    }
                },
            }
        },
    }
}

pub(crate) fn read_ip_version(input: &[char], pos: usize) -> (r: Option<(IpVersion, usize)>)
    ensures
        reads(r, ip_version_at(input@, pos as int), input@),
{
    if eat_char(input, pos, '4') {
        Some((IpVersion::V4, pos + 1))
    } else if eat_char(input, pos, '6') {
        Some((IpVersion::V6, pos + 1))
    } else if eat_char(input, pos, '*') {
        Some((IpVersion::Any, pos + 1))
    } else {
        None
    }
}

pub(crate) fn read_ttl(input: &[char], pos: usize) -> (r: Option<(TTL, usize)>)
    requires
        pos <= input.len(),
    ensures
        reads(r, ttl_at(input@, pos as int), input@),
{
    match read_number(input, pos, 255) {
        None => None,
        Some((n, j)) => {
            if eat_char(input, j, '-') {
                Some((TTL::Bad(n as u8), j + 1))
            } else if eat(input, j, "+?") {
                proof {
                    reveal_strlit("+?");
                }
                Some((TTL::Guess(n as u8), j + 2))
            } else if eat_char(input, j, '+') {
                match read_number(input, j + 1, 255) {
                    Some((d, k)) => Some((TTL::Distance(n as u8, d as u8), k)),
                    None => Some((TTL::Value(n as u8), j)),
                }
            } else {
                Some((TTL::Value(n as u8), j))
            }
        },
    }
}

pub(crate) fn read_window_size(input: &[char], pos: usize) -> (r: Option<(WindowSize, usize)>)
    requires
        pos <= input.len(),
    ensures
        reads(r, window_size_at(input@, pos as int), input@),
{
    proof {
        reveal_strlit("mss*");
        reveal_strlit("mtu*");
    }
    if eat_char(input, pos, '*') {
        Some((WindowSize::Any, pos + 1))
    } else if eat(input, pos, "mss*") {
        match read_number(input, pos + 4, 255) {
            Some((n, j)) => Some((WindowSize::MSS(n as u8), j)),
            None => None,
        }
    } else if eat(input, pos, "mtu*") {
        match read_number(input, pos + 4, 255) {
            Some((n, j)) => Some((WindowSize::MTU(n as u8), j)),
            None => None,
        }
    } else if eat_char(input, pos, '%') {
        match read_number(input, pos + 1, 65535) {
            Some((n, j)) => Some((WindowSize::Mod(n), j)),
            None => None,
        }
    } else {
        match read_number(input, pos, 65535) {
            Some((n, j)) => Some((WindowSize::Value(n), j)),
            None => None,
        }
    }
}

pub(crate) fn read_tcp_option(input: &[char], pos: usize) -> (r: Option<(TcpOption, usize)>)
    requires
        pos <= input.len(),
    ensures
        reads(r, tcp_option_at(input@, pos as int), input@),
        r is Some ==> pos < r.unwrap().1,
{
    proof {
        reveal_strlit("eol+");
        reveal_strlit("nop");
        reveal_strlit("mss");
        reveal_strlit("ws");
        reveal_strlit("sok");
        reveal_strlit("sack");
        reveal_strlit("ts");
    }
    if eat(input, pos, "eol+") {
        match read_number(input, pos + 4, 255) {
            Some((n, j)) => Some((TcpOption::EOL(n as u8), j)),
            None => None,
        }
    } else if eat(input, pos, "nop") {
        Some((TcpOption::NOP, pos + 3))
    } else if eat(input, pos, "mss") {
        Some((TcpOption::MSS, pos + 3))
    } else if eat(input, pos, "ws") {
        Some((TcpOption::WS, pos + 2))
    } else if eat(input, pos, "sok") {
        Some((TcpOption::SOK, pos + 3))
    } else if eat(input, pos, "sack") {
        Some((TcpOption::SACK, pos + 4))
    } else if eat(input, pos, "ts") {
        Some((TcpOption::TS, pos + 2))
    } else if eat_char(input, pos, '?') {
        match read_number(input, pos + 1, 255) {
            Some((n, j)) => Some((TcpOption::Unknown(n as u8), j)),
            None => None,
        }
    } else {
        None
    }
}

pub(crate) fn read_quirk(input: &[char], pos: usize) -> (r: Option<(Quirk, usize)>)
    requires
        pos <= input.len(),
    ensures
        reads(r, quirk_at(input@, pos as int), input@),
        r is Some ==> pos < r.unwrap().1,
{
    proof {
        reveal_strlit("df");
        reveal_strlit("id+");
        reveal_strlit("id-");
        reveal_strlit("ecn");
        reveal_strlit("0+");
        reveal_strlit("flow");
        reveal_strlit("seq-");
        reveal_strlit("ack+");
        reveal_strlit("ack-");
        reveal_strlit("uptr+");
        reveal_strlit("urgf+");
        reveal_strlit("pushf+");
        reveal_strlit("ts1-");
        reveal_strlit("ts2+");
        reveal_strlit("opt+");
        reveal_strlit("exws");
        reveal_strlit("bad");
    }
    if eat(input, pos, "df") {
        Some((Quirk::DF, pos + 2))
    } else if eat(input, pos, "id+") {
        Some((Quirk::NonZeroID, pos + 3))
    } else if eat(input, pos, "id-") {
        Some((Quirk::ZeroID, pos + 3))
    } else if eat(input, pos, "ecn") {
        Some((Quirk::ECN, pos + 3))
    } else if eat(input, pos, "0+") {
        Some((Quirk::MustBeZero, pos + 2))
    } else if eat(input, pos, "flow") {
        Some((Quirk::FlowID, pos + 4))
    } else if eat(input, pos, "seq-") {
        Some((Quirk::SeqNumZero, pos + 4))
    } else if eat(input, pos, "ack+") {
        Some((Quirk::AckNumNonZero, pos + 4))
    } else if eat(input, pos, "ack-") {
        Some((Quirk::AckNumZero, pos + 4))
    } else if eat(input, pos, "uptr+") {
        Some((Quirk::NonZeroURG, pos + 5))
    } else if eat(input, pos, "urgf+") {
        Some((Quirk::URG, pos + 5))
    } else if eat(input, pos, "pushf+") {
        Some((Quirk::PUSH, pos + 6))
    } else if eat(input, pos, "ts1-") {
        Some((Quirk::OwnTimestampZero, pos + 4))
    } else if eat(input, pos, "ts2+") {
        Some((Quirk::PeerTimestampNonZero, pos + 4))
    } else if eat(input, pos, "opt+") {
        Some((Quirk::TrailinigNonZero, pos + 4))
    } else if eat(input, pos, "exws") {
        Some((Quirk::ExcessiveWindowScaling, pos + 4))
    } else if eat(input, pos, "bad") {
        Some((Quirk::OptBad, pos + 3))
    } else {
        None
    }
}

pub(crate) fn read_payload_size(input: &[char], pos: usize) -> (r: Option<(PayloadSize, usize)>)
    ensures
        reads(r, payload_size_at(input@, pos as int), input@),
{
    if eat_char(input, pos, '0') {
        Some((PayloadSize::Zero, pos + 1))
    } else if eat_char(input, pos, '+') {
        Some((PayloadSize::NonZero, pos + 1))
    } else if eat_char(input, pos, '*') {
        Some((PayloadSize::Any, pos + 1))
    } else {
        None
    }
}

pub(crate) fn read_optional_number(input: &[char], pos: usize, max: u16) -> (r: Option<
    (Option<u16>, usize),
>)
    requires
        pos <= input.len(),
    ensures
        match r {
            Some((Some(n), j)) => optional_number_at(input@, pos as int, max as nat) == Some(
                (Some(n as nat), j as int),
            ) && n <= max && j <= input.len(),
            Some((None, j)) => optional_number_at(input@, pos as int, max as nat) == Some(
                (None::<nat>, j as int),
            ) && j <= input.len(),
            None => optional_number_at(input@, pos as int, max as nat) is None,
        },
{
    if eat_char(input, pos, '*') {
        Some((None, pos + 1))
    } else {
        match read_number(input, pos, max) {
            Some((n, j)) => Some((Some(n), j)),
            None => None,
        }
    }
}

/// Reads on after the option `first`, which ended at `pos`.
fn read_more_options(input: &[char], pos: usize, first: TcpOption) -> (r: (Vec<TcpOption>, usize))
    requires
        pos <= input.len(),
    ensures
        (r.0@, r.1 as int) == list_rest(tcp_option_elem(), input@, pos as int, seq![first]),
        r.1 <= input.len(),
{
    let mut list: Vec<TcpOption> = Vec::new();
    list.push(first);
    let mut cur: usize = pos;
    let mut open: bool = true;
    while open
        invariant
            cur <= input.len(),
            list_rest(tcp_option_elem(), input@, pos as int, seq![first]) == list_rest(
                tcp_option_elem(),
                input@,
                cur as int,
                list@,
            ),
            !open ==> list_rest(tcp_option_elem(), input@, cur as int, list@) == (
                list@,
                cur as int,
            ),
        decreases input.len() - cur + if open { 1int } else { 0int },
    {
        if eat_char(input, cur, ',') {
            match read_tcp_option(input, cur + 1) {
                Some((o, j)) => {
                    list.push(o);
                    cur = j;
                },
                None => {
                    open = false;
                },
            }
        } else {
            open = false;
        }
    }
    (list, cur)
}

/// Reads on after the quirk `first`, which ended at `pos`.
fn read_more_quirks(input: &[char], pos: usize, first: Quirk) -> (r: (Vec<Quirk>, usize))
    requires
        pos <= input.len(),
    ensures
        (r.0@, r.1 as int) == list_rest(quirk_elem(), input@, pos as int, seq![first]),
        r.1 <= input.len(),
{
    let mut list: Vec<Quirk> = Vec::new();
    list.push(first);
    let mut cur: usize = pos;
    let mut open: bool = true;
    while open
        invariant
            cur <= input.len(),
            list_rest(quirk_elem(), input@, pos as int, seq![first]) == list_rest(
                quirk_elem(),
                input@,
                cur as int,
                list@,
            ),
            !open ==> list_rest(quirk_elem(), input@, cur as int, list@) == (list@, cur as int),
        decreases input.len() - cur + if open { 1int } else { 0int },
    {
        if eat_char(input, cur, ',') {
            match read_quirk(input, cur + 1) {
                Some((q, j)) => {
                    list.push(q);
                    cur = j;
                },
                None => {
                    open = false;
                },
            }
        } else {
            open = false;
        }
    }
    (list, cur)
}

pub(crate) fn read_ip_part(input: &[char], pos: usize) -> (r: Result<
    ((IpVersion, TTL, u8), usize),
    usize,
>)
    requires
        pos <= input.len(),
    ensures
        reads_or(r, ip_part_at(input@, pos as int), input@),
{
    let (version, a) = match read_ip_version(input, pos) {
        Some(x) => x,
        None => { return Err(pos); },
    };
    if !eat_char(input, a, ':') {
        return Err(a);
    }
    let (ittl, b) = match read_ttl(input, a + 1) {
        Some(x) => x,
        None => { return Err(a + 1); },
    };
    if !eat_char(input, b, ':') {
        return Err(b);
    }
    match read_number(input, b + 1, 255) {
        Some((olen, c)) => Ok(((version, ittl, olen as u8), c)),
        None => Err(b + 1),
    }
}

pub(crate) fn read_size_part(input: &[char], pos: usize) -> (r: Result<
    ((Option<u16>, WindowSize, Option<u8>), usize),
    usize,
>)
    requires
        pos <= input.len(),
    ensures
        reads_or(r, size_part_at(input@, pos as int), input@),
{
    let (mss, a) = match read_optional_number(input, pos, 65535) {
        Some(x) => x,
        None => { return Err(pos); },
    };
    if !eat_char(input, a, ':') {
        return Err(a);
    }
    let (wsize, b) = match read_window_size(input, a + 1) {
        Some(x) => x,
        None => { return Err(a + 1); },
    };
    if !eat_char(input, b, ',') {
        return Err(b);
    }
    match read_optional_number(input, b + 1, 255) {
        Some((wscale, c)) => {
            let wscale: Option<u8> = match wscale {
                Some(n) => Some(n as u8),
                None => None,
            };
            Ok(((mss, wsize, wscale), c))
        },
        None => Err(b + 1),
    }
}

pub(crate) fn read_layout_part(input: &[char], pos: usize) -> (r: Result<
    ((Vec<TcpOption>, Vec<Quirk>, PayloadSize), usize),
    usize,
>)
    requires
        pos <= input.len(),
    ensures
        match r {
            Ok(((olayout, quirks, pclass), j)) => layout_part_at(input@, pos as int) == Ok::<
                ((Seq<TcpOption>, Seq<Quirk>, PayloadSize), int),
                int,
            >(((olayout@, quirks@, pclass), j as int)) && j <= input.len(),
            Err(at) => layout_part_at(input@, pos as int) == Err::<
                ((Seq<TcpOption>, Seq<Quirk>, PayloadSize), int),
                int,
            >(at as int) && at <= input.len(),
        },
{
    let (olayout, a) = match read_tcp_option(input, pos) {
        Some((first, j)) => read_more_options(input, j, first),
        None => { return Err(pos); },
    };
    if !eat_char(input, a, ':') {
        return Err(a);
    }
    let (quirks, b) = match read_quirk(input, a + 1) {
        Some((first, j)) => read_more_quirks(input, j, first),
        None => (Vec::new(), a + 1),
    };
    if !eat_char(input, b, ':') {
        return Err(b);
    }
    match read_payload_size(input, b + 1) {
        Some((pclass, c)) => Ok(((olayout, quirks, pclass), c)),
        None => Err(b + 1),
    }
}

pub(crate) fn read_signature(input: &[char], pos: usize) -> (r: Result<(Signature, usize), usize>)
    requires
        pos <= input.len(),
    ensures
        match r {
            Ok((sig, j)) => signature_at(input@, pos as int) == Ok::<(SignatureView, int), int>(
                (sig@, j as int),
            ) && j <= input.len(),
            Err(at) => signature_at(input@, pos as int) == Err::<(SignatureView, int), int>(
                at as int,
            ) && at <= input.len(),
        },
{
    let ((version, ittl, olen), a) = match read_ip_part(input, pos) {
        Ok(x) => x,
        Err(at) => { return Err(at); },
    };
    if !eat_char(input, a, ':') {
        return Err(a);
    }
    let ((mss, wsize, wscale), b) = match read_size_part(input, a + 1) {
        Ok(x) => x,
        Err(at) => { return Err(at); },
    };
    if !eat_char(input, b, ':') {
        return Err(b);
    }
    match read_layout_part(input, b + 1) {
        Ok(((olayout, quirks, pclass), c)) => Ok(
            (Signature { version, ittl, olen, mss, wsize, wscale, olayout, quirks, pclass }, c),
        ),
        Err(at) => Err(at),
    }
}

/// The IP version that the whole of `s` is the text form of.
pub open spec fn ip_version_of(s: Seq<char>) -> Result<IpVersion, ParseError> {
    whole(or_fail_at(ip_version_at(s, 0), 0), s.len())
}

/// The TTL that the whole of `s` is the text form of.
pub open spec fn ttl_of(s: Seq<char>) -> Result<TTL, ParseError> {
    whole(or_fail_at(ttl_at(s, 0), 0), s.len())
}

/// The window size that the whole of `s` is the text form of.
pub open spec fn window_size_of(s: Seq<char>) -> Result<WindowSize, ParseError> {
    whole(or_fail_at(window_size_at(s, 0), 0), s.len())
}

/// The TCP option that the whole of `s` is the text form of.
pub open spec fn tcp_option_of(s: Seq<char>) -> Result<TcpOption, ParseError> {
    whole(or_fail_at(tcp_option_at(s, 0), 0), s.len())
}

/// The quirk that the whole of `s` is the text form of.
pub open spec fn quirk_of(s: Seq<char>) -> Result<Quirk, ParseError> {
    whole(or_fail_at(quirk_at(s, 0), 0), s.len())
}

/// The payload class that the whole of `s` is the text form of.
pub open spec fn payload_size_of(s: Seq<char>) -> Result<PayloadSize, ParseError> {
    whole(or_fail_at(payload_size_at(s, 0), 0), s.len())
}

/// The signature that the whole of `s` is the text form of.
pub open spec fn signature_of(s: Seq<char>) -> Result<SignatureView, ParseError> {
    whole(signature_at(s, 0), s.len())
}

impl FromStr for IpVersion {
    type Err = ParseError;

    fn from_str(s: &str) -> (r: Result<IpVersion, ParseError>)
        ensures
            r == ip_version_of(s@),
    {
        let input = chars_of(s);
        finish(or_fail(read_ip_version(&input, 0), 0), input.len())
    }
}

impl FromStr for TTL {
    type Err = ParseError;

    fn from_str(s: &str) -> (r: Result<TTL, ParseError>)
        ensures
            r == ttl_of(s@),
    {
        let input = chars_of(s);
        finish(or_fail(read_ttl(&input, 0), 0), input.len())
    }
}

impl FromStr for WindowSize {
    type Err = ParseError;

    fn from_str(s: &str) -> (r: Result<WindowSize, ParseError>)
        ensures
            r == window_size_of(s@),
    {
        let input = chars_of(s);
        finish(or_fail(read_window_size(&input, 0), 0), input.len())
    }
}

impl FromStr for TcpOption {
    type Err = ParseError;

    fn from_str(s: &str) -> (r: Result<TcpOption, ParseError>)
        ensures
            r == tcp_option_of(s@),
    {
        let input = chars_of(s);
        finish(or_fail(read_tcp_option(&input, 0), 0), input.len())
    }
}

impl FromStr for Quirk {
    type Err = ParseError;

    fn from_str(s: &str) -> (r: Result<Quirk, ParseError>)
        ensures
            r == quirk_of(s@),
    {
        let input = chars_of(s);
        finish(or_fail(read_quirk(&input, 0), 0), input.len())
    }
}

impl FromStr for PayloadSize {
    type Err = ParseError;

    fn from_str(s: &str) -> (r: Result<PayloadSize, ParseError>)
        ensures
            r == payload_size_of(s@),
    {
        let input = chars_of(s);
        finish(or_fail(read_payload_size(&input, 0), 0), input.len())
    }
}

impl FromStr for Signature {
    type Err = ParseError;

    fn from_str(s: &str) -> (r: Result<Signature, ParseError>)
        ensures
            match r {
                Ok(sig) => signature_of(s@) == Ok::<SignatureView, ParseError>(sig@)
                    && sig@.olayout.len() > 0,
                Err(e) => signature_of(s@) == Err::<SignatureView, ParseError>(e),
            },
    {
        proof {
            crate::roundtrip::tcp::signature_read_has_options(s@);
        }
        let input = chars_of(s);
        finish(read_signature(&input, 0), input.len())
    }
}

} // verus!
