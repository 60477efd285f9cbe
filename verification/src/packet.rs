//! From a captured frame to the signature of the TCP segment in it.
//!
//! The headers are taken apart by `pnet`; what is made of their fields is
//! decided here.

use vstd::prelude::*;
use vstd::slice::slice_subrange;
use crate::tcp::{
    IpVersion, PayloadSize, Quirk, Signature, SignatureView, TcpOption, WindowSize, TTL,
};
use pnet::packet::ethernet::EthernetPacket;
use pnet::packet::ipv4::Ipv4Packet;
use pnet::packet::ipv6::Ipv6Packet;
use pnet::packet::tcp::{TcpOptionPacket, TcpPacket};
use pnet::packet::vlan::VlanPacket;
use pnet::packet::{Packet, PacketSize};

verus! {

/// The part of a frame that is too short for its header.
#[derive(Clone, Copy, Debug, PartialEq, Eq)]
pub enum Layer {
    Ethernet,
    Vlan,
    Ipv4,
    Ipv6,
    Tcp,
    /// a TCP option that runs past the end of the options
    TcpOption,
}

/// Why a frame gives no signature.
#[derive(Clone, Copy, Debug, PartialEq, Eq)]
pub enum ExtractError {
    /// The frame ends before this part of it is complete.
    Short(Layer),
    /// The frame carries neither IPv4 nor IPv6 but this EtherType.
    EtherType(u16),
    /// The packet carries not TCP but this protocol.
    Protocol(u8),
    /// The packet is a fragment.
    Fragment,
    /// The segment is neither a SYN nor a SYN+ACK; these are its flags.
    Flags(u8),
}

pub const ETHERTYPE_IPV4: u16 = 0x0800;

pub const ETHERTYPE_VLAN: u16 = 0x8100;

pub const ETHERTYPE_IPV6: u16 = 0x86DD;

pub const PROTOCOL_TCP: u8 = 6;

/// IPv4 flag: more fragments follow
pub const IP4_MF: u8 = 0b001;

/// IPv4 flag: don't fragment
pub const IP4_DF: u8 = 0b010;

/// IPv4 flag: must be zero
pub const IP4_MBZ: u8 = 0b100;

/// The two lowest bits of the type of service: congestion encountered, and
/// ECN supported
pub const IP_TOS_ECN: u8 = 0x03;

pub const TCP_FIN: u8 = 0x01;

pub const TCP_SYN: u8 = 0x02;

pub const TCP_RST: u8 = 0x04;

pub const TCP_PSH: u8 = 0x08;

pub const TCP_ACK: u8 = 0x10;

pub const TCP_URG: u8 = 0x20;

pub const TCP_ECE: u8 = 0x40;

pub const TCP_CWR: u8 = 0x80;

/// The lowest of the reserved bits beside the TCP flags: the nonce sum
pub const TCP_NS: u8 = 0x01;

/// TCP option: end of the option list
pub const OPTION_EOL: u8 = 0;

/// TCP option: no operation
pub const OPTION_NOP: u8 = 1;

/// TCP option: maximum segment size
pub const OPTION_MSS: u8 = 2;

/// TCP option: window scale
pub const OPTION_WSCALE: u8 = 3;

/// TCP option: selective acknowledgement permitted
pub const OPTION_SACK_PERMITTED: u8 = 4;

/// TCP option: selective acknowledgement
pub const OPTION_SACK: u8 = 5;

/// TCP option: timestamps
pub const OPTION_TIMESTAMPS: u8 = 8;

/// The number that two bytes hold in network order.
pub open spec fn be16(hi: u8, lo: u8) -> u16 {
    (hi as int * 256 + lo as int) as u16
}

/// The lesser of two numbers.
pub open spec fn least(a: int, b: int) -> int {
    if a <= b {
        a
    } else {
        b
    }
}

/// `a - b`, or 0 where that is less.
pub open spec fn minus(a: int, b: int) -> int {
    if a >= b {
        a - b
    } else {
        0
    }
}

/// What an Ethernet header or a VLAN tag says of what follows it.
pub struct LinkHeader {
    pub ethertype: u16,
    /// the number of bytes after the header
    pub payload_len: usize,
}

/// The Ethernet header of a frame of at least 14 bytes: the EtherType in
/// bytes 12 and 13, and all after them as payload.
pub open spec fn ethernet_header(b: Seq<u8>) -> Option<LinkHeader> {
    if b.len() < 14 {
        None
    } else {
        Some(LinkHeader { ethertype: be16(b[12], b[13]), payload_len: (b.len() - 14) as usize })
    }
}

/// The VLAN tag at the start of at least 4 bytes: the EtherType in bytes 2
/// and 3, and all after them as payload.
pub open spec fn vlan_header(b: Seq<u8>) -> Option<LinkHeader> {
    if b.len() < 4 {
        None
    } else {
        Some(LinkHeader { ethertype: be16(b[2], b[3]), payload_len: (b.len() - 4) as usize })
    }
}

/// The fields of an IPv4 header that a signature is made of.
pub struct Ipv4Header {
    /// the two ECN bits of the type of service
    pub ecn: u8,
    pub identification: u16,
    /// the three flag bits
    pub flags: u8,
    pub fragment_offset: u16,
    pub ttl: u8,
    pub protocol: u8,
    /// the number of option bytes that are there
    pub options_len: usize,
    /// the number of payload bytes that are there
    pub payload_len: usize,
}

/// The number of option bytes that an IPv4 header announces.
pub open spec fn ipv4_options_announced(b: Seq<u8>) -> int {
    minus((b[0] % 16) * 4, 20)
}

/// The number of payload bytes that an IPv4 header announces: its total
/// length less its header length.
pub open spec fn ipv4_payload_announced(b: Seq<u8>) -> int {
    minus(be16(b[2], b[3]) as int, (b[0] % 16) * 4)
}

/// The IPv4 header at the start of at least 20 bytes. Options and payload go
/// as far as the header announces and the bytes reach; the payload begins
/// where the announced options end.
pub open spec fn ipv4_header(b: Seq<u8>) -> Option<Ipv4Header> {
    if b.len() < 20 {
        None
    } else {
        let start = 20 + ipv4_options_announced(b);
        Some(
            Ipv4Header {
                ecn: b[1] % 4,
                identification: be16(b[4], b[5]),
                flags: b[6] / 32,
                fragment_offset: be16(b[6] % 32, b[7]),
                ttl: b[8],
                protocol: b[9],
                options_len: (least(start, b.len() as int) - 20) as usize,
                payload_len: minus(
                    least(start + ipv4_payload_announced(b), b.len() as int),
                    start,
                ) as usize,
            },
        )
    }
}

/// The fields of an IPv6 header that a signature is made of.
pub struct Ipv6Header {
    pub traffic_class: u8,
    pub flow_label: u32,
    pub next_header: u8,
    pub hop_limit: u8,
    /// the number of payload bytes that are there
    pub payload_len: usize,
}

/// The IPv6 header at the start of at least 40 bytes. The payload goes as
/// far as bytes 4 and 5 announce and the bytes reach.
pub open spec fn ipv6_header(b: Seq<u8>) -> Option<Ipv6Header> {
    if b.len() < 40 {
        None
    } else {
        Some(
            Ipv6Header {
                traffic_class: ((b[0] % 16) * 16 + b[1] / 16) as u8,
                flow_label: ((b[1] % 16) * 65536 + b[2] * 256 + b[3]) as u32,
                next_header: b[6],
                hop_limit: b[7],
                payload_len: (least(40 + be16(b[4], b[5]), b.len() as int) - 40) as usize,
            },
        )
    }
}

/// The fields of a TCP header that a signature is made of.
pub struct TcpHeader {
    pub sequence: u32,
    pub acknowledgement: u32,
    /// the four bits between the data offset and the flags
    pub reserved: u8,
    /// the eight flags from CWR down to FIN
    pub flags: u8,
    pub window: u16,
    pub urgent_ptr: u16,
    /// the number of option bytes that are there
    pub options_len: usize,
    /// the number of payload bytes that are there
    pub payload_len: usize,
}

/// The number that four bytes hold in network order.
pub open spec fn be32(b0: u8, b1: u8, b2: u8, b3: u8) -> u32 {
    (b0 as int * 16777216 + b1 as int * 65536 + b2 as int * 256 + b3 as int) as u32
}

/// The number of option bytes that a TCP header announces.
pub open spec fn tcp_options_announced(b: Seq<u8>) -> int {
    minus((b[12] / 16) * 4, 20)
}

/// The TCP header at the start of at least 20 bytes. The options go as far
/// as the data offset announces and the bytes reach; the payload is what
/// follows the announced options.
pub open spec fn tcp_header(b: Seq<u8>) -> Option<TcpHeader> {
    if b.len() < 20 {
        None
    } else {
        let start = 20 + tcp_options_announced(b);
        Some(
            TcpHeader {
                sequence: be32(b[4], b[5], b[6], b[7]),
                acknowledgement: be32(b[8], b[9], b[10], b[11]),
                reserved: b[12] % 16,
                flags: b[13],
                window: be16(b[14], b[15]),
                urgent_ptr: be16(b[18], b[19]),
                options_len: (least(start, b.len() as int) - 20) as usize,
                payload_len: minus(b.len() as int, start) as usize,
            },
        )
    }
}

/// How a TCP option lies in the bytes that begin with it.
pub struct OptionHeader {
    pub kind: u8,
    /// the number of bytes that the option announces for itself
    pub size: usize,
    /// the number of bytes of its value that are there
    pub data_len: usize,
}

/// The size that the TCP option at the start of `b` announces: 1 for an end
/// of list or a no-op, else what its second byte says, and 2 where that
/// byte says less or is not there.
pub open spec fn option_size(b: Seq<u8>) -> int {
    if b[0] == OPTION_EOL || b[0] == OPTION_NOP {
        1
    } else if b.len() >= 2 && b[1] >= 2 {
        b[1] as int
    } else {
        2
    }
}

/// The TCP option at the start of at least one byte. Its value begins after
/// two bytes and goes as far as the option announces and the bytes reach.
pub open spec fn option_header(b: Seq<u8>) -> Option<OptionHeader> {
    if b.len() < 1 {
        None
    } else {
        Some(
            OptionHeader {
                kind: b[0],
                size: option_size(b) as usize,
                data_len: if b[0] == OPTION_EOL || b[0] == OPTION_NOP {
                    0
                } else {
                    minus(least(option_size(b), b.len() as int), 2) as usize
                },
            },
        )
    }
}

/// Takes an Ethernet header apart.
///
/// Trusted: `EthernetPacket::new` is taken to accept 14 bytes or more,
/// `get_ethertype` to read bytes 12 and 13 in network order, and `payload`
/// to give all bytes after the first 14.
#[verifier::external_body]
fn read_ethernet(frame: &[u8]) -> (r: Option<LinkHeader>)
    ensures
        r == ethernet_header(frame@),
{
    let packet = EthernetPacket::new(frame)?;
    Some(LinkHeader { ethertype: packet.get_ethertype().0, payload_len: packet.payload().len() })
}

/// Takes a VLAN tag apart.
///
/// Trusted: `VlanPacket::new` is taken to accept 4 bytes or more,
/// `get_ethertype` to read bytes 2 and 3 in network order, and `payload` to
/// give all bytes after the first 4.
#[verifier::external_body]
fn read_vlan(bytes: &[u8]) -> (r: Option<LinkHeader>)
    ensures
        r == vlan_header(bytes@),
{
    let packet = VlanPacket::new(bytes)?;
    Some(LinkHeader { ethertype: packet.get_ethertype().0, payload_len: packet.payload().len() })
}

/// Takes an IPv4 header apart.
///
/// Trusted: `Ipv4Packet::new` is taken to accept 20 bytes or more, and the
/// getters to read: the low two bits of byte 1; bytes 4 and 5; the high
/// three bits of byte 6; the rest of byte 6 with byte 7; byte 8; byte 9.
/// `get_options_raw` is taken to give the bytes from 20 up to the header
/// length that the low half of byte 0 announces in words of four bytes, and
/// `payload` the bytes from there on, as many as the total length in bytes
/// 2 and 3 is over that header length, both cut off at the end of the
/// bytes.
#[verifier::external_body]
fn read_ipv4(bytes: &[u8]) -> (r: Option<Ipv4Header>)
    ensures
        r == ipv4_header(bytes@),
{
    let packet = Ipv4Packet::new(bytes)?;
    Some(
        Ipv4Header {
            ecn: packet.get_ecn(),
            identification: packet.get_identification(),
            flags: packet.get_flags(),
            fragment_offset: packet.get_fragment_offset(),
            ttl: packet.get_ttl(),
            protocol: packet.get_next_level_protocol().0,
            options_len: packet.get_options_raw().len(),
            payload_len: packet.payload().len(),
        },
    )
}

/// Takes an IPv6 header apart.
///
/// Trusted: `Ipv6Packet::new` is taken to accept 40 bytes or more, and the
/// getters to read: the eight bits after the first four; the twenty bits
/// after those; byte 6; byte 7. `payload` is taken to give the bytes from
/// 40 on, as many as bytes 4 and 5 announce, cut off at the end of the
/// bytes.
#[verifier::external_body]
fn read_ipv6(bytes: &[u8]) -> (r: Option<Ipv6Header>)
    ensures
        r == ipv6_header(bytes@),
{
    let packet = Ipv6Packet::new(bytes)?;
    Some(
        Ipv6Header {
            traffic_class: packet.get_traffic_class(),
            flow_label: packet.get_flow_label(),
            next_header: packet.get_next_header().0,
            hop_limit: packet.get_hop_limit(),
            payload_len: packet.payload().len(),
        },
    )
}

/// Takes a TCP header apart.
///
/// Trusted: `TcpPacket::new` is taken to accept 20 bytes or more, and the
/// getters to read: bytes 4 to 7; bytes 8 to 11; the low half of byte 12;
/// byte 13; bytes 14 and 15; bytes 18 and 19. `get_options_raw` is taken to
/// give the bytes from 20 up to the data offset that the high half of byte
/// 12 announces in words of four bytes, cut off at the end of the bytes,
/// and `payload` all bytes from that offset on.
#[verifier::external_body]
fn read_tcp(bytes: &[u8]) -> (r: Option<TcpHeader>)
    ensures
        r == tcp_header(bytes@),
{
    let packet = TcpPacket::new(bytes)?;
    Some(
        TcpHeader {
            sequence: packet.get_sequence(),
            acknowledgement: packet.get_acknowledgement(),
            reserved: packet.get_reserved(),
            flags: packet.get_flags(),
            window: packet.get_window(),
            urgent_ptr: packet.get_urgent_ptr(),
            options_len: packet.get_options_raw().len(),
            payload_len: packet.payload().len(),
        },
    )
}

/// Takes the first of some TCP options apart.
///
/// Trusted: `TcpOptionPacket::new` is taken to accept one byte or more,
/// `get_number` to read byte 0, `packet_size` to give 1 for the kinds 0 and
/// 1 and else the length in byte 1, or 2 where that is less or missing, and
/// `payload` to give the bytes from 2 up to that size, cut off at the end
/// of the bytes, and none for the kinds 0 and 1.
#[verifier::external_body]
fn read_option(bytes: &[u8]) -> (r: Option<OptionHeader>)
    ensures
        r == option_header(bytes@),
{
    let packet = TcpOptionPacket::new(bytes)?;
    Some(
        OptionHeader {
            kind: packet.get_number().0,
            size: packet.packet_size(),
            data_len: packet.payload().len(),
        },
    )
}

/// `quirks` with `q` among them: added at the end, unless it is there.
pub open spec fn with_quirk(quirks: Seq<Quirk>, q: Quirk) -> Seq<Quirk> {
    if quirks.contains(q) {
        quirks
    } else {
        quirks.push(q)
    }
}

/// `quirks`, with `q` among them if `add` holds.
pub open spec fn with_quirk_if(quirks: Seq<Quirk>, add: bool, q: Quirk) -> Seq<Quirk> {
    if add {
        with_quirk(quirks, q)
    } else {
        quirks
    }
}

/// The quirks of an IPv4 header: `ecn`, `0+`, then `df` with `id+` or,
/// without it, `id-`.
pub open spec fn ipv4_quirks(h: Ipv4Header) -> Seq<Quirk> {
    let q = with_quirk_if(Seq::empty(), h.ecn & IP_TOS_ECN != 0, Quirk::ECN);
    let q = with_quirk_if(q, h.flags & IP4_MBZ != 0, Quirk::MustBeZero);
    if h.flags & IP4_DF != 0 {
        with_quirk_if(with_quirk(q, Quirk::DF), h.identification != 0, Quirk::NonZeroID)
    } else {
        with_quirk_if(q, h.identification == 0, Quirk::ZeroID)
    }
}

/// The quirks of an IPv6 header: `flow`, then `ecn`.
pub open spec fn ipv6_quirks(h: Ipv6Header) -> Seq<Quirk> {
    let q = with_quirk_if(Seq::empty(), h.flow_label != 0, Quirk::FlowID);
    with_quirk_if(q, h.traffic_class & IP_TOS_ECN != 0, Quirk::ECN)
}

/// Whether the flags are those of a SYN or of a SYN+ACK: of SYN, ACK, FIN
/// and RST, SYN is set and FIN and RST are not.
pub open spec fn is_syn(flags: u8) -> bool {
    let kind = flags & (TCP_SYN | TCP_ACK | TCP_FIN | TCP_RST);
    kind == TCP_SYN || kind == (TCP_SYN | TCP_ACK)
}

/// Whether the flags are those of a SYN without ACK.
pub open spec fn is_pure_syn(flags: u8) -> bool {
    flags & (TCP_SYN | TCP_ACK | TCP_FIN | TCP_RST) == TCP_SYN
}

/// `quirks` and, after them, those of a TCP header: `ecn`, `seq-`, `ack-`
/// or `ack+`, `urgf+` or `uptr+`, `pushf+`.
pub open spec fn tcp_quirks(quirks: Seq<Quirk>, h: TcpHeader) -> Seq<Quirk> {
    let q = with_quirk_if(
        quirks,
        h.flags & (TCP_ECE | TCP_CWR) != 0 || h.reserved & TCP_NS != 0,
        Quirk::ECN,
    );
    let q = with_quirk_if(q, h.sequence == 0, Quirk::SeqNumZero);
    let q = if h.flags & TCP_ACK == TCP_ACK {
        with_quirk_if(q, h.acknowledgement == 0, Quirk::AckNumZero)
    } else {
        with_quirk_if(
            q,
            h.acknowledgement != 0 && h.flags & TCP_RST == 0,
            Quirk::AckNumNonZero,
        )
    };
    let q = if h.flags & TCP_URG == TCP_URG {
        with_quirk(q, Quirk::URG)
    } else {
        with_quirk_if(q, h.urgent_ptr != 0, Quirk::NonZeroURG)
    };
    with_quirk_if(q, h.flags & TCP_PSH == TCP_PSH, Quirk::PUSH)
}

/// What the options of a segment have told so far, as a mathematical value.
pub struct Walk {
    pub mss: Option<u16>,
    pub wscale: Option<u8>,
    pub olayout: Seq<TcpOption>,
    pub quirks: Seq<Quirk>,
}

/// What the options of a segment have told so far.
pub struct Walked {
    pub mss: Option<u16>,
    pub wscale: Option<u8>,
    pub olayout: Vec<TcpOption>,
    pub quirks: Vec<Quirk>,
}

impl View for Walked {
    type V = Walk;

    open spec fn view(&self) -> Walk {
        Walk {
            mss: self.mss,
            wscale: self.wscale,
            olayout: self.olayout@,
            quirks: self.quirks@,
        }
    }
}

/// Whether any of the bytes from `i` on is not zero.
pub open spec fn any_nonzero(b: Seq<u8>, i: int) -> bool {
    exists|k: int| i <= k < b.len() && b[k] != 0
}

/// What is known after an option that has a length, of `size` bytes with
/// the value `data`, in a pure SYN or not. An option whose size is not that
/// of its kind is `bad`; a value is read where the size leaves room for it.
pub open spec fn option_seen(w: Walk, kind: u8, size: int, data: Seq<u8>, pure_syn: bool) -> Walk {
    if kind == OPTION_MSS {
        Walk {
            mss: if size >= 4 {
                Some(be16(data[0], data[1]))
            } else {
                w.mss
            },
            olayout: w.olayout.push(TcpOption::MSS),
            quirks: with_quirk_if(w.quirks, size != 4, Quirk::OptBad),
            ..w
        }
    } else if kind == OPTION_WSCALE {
        let q = with_quirk_if(w.quirks, size >= 3 && data[0] > 14, Quirk::ExcessiveWindowScaling);
        Walk {
            wscale: if size >= 3 {
                Some(data[0])
            } else {
                w.wscale
            },
            olayout: w.olayout.push(TcpOption::WS),
            quirks: with_quirk_if(q, size != 3, Quirk::OptBad),
            ..w
        }
    } else if kind == OPTION_SACK_PERMITTED {
        Walk {
            olayout: w.olayout.push(TcpOption::SOK),
            quirks: with_quirk_if(w.quirks, size != 2, Quirk::OptBad),
            ..w
        }
    } else if kind == OPTION_SACK {
        Walk {
            olayout: w.olayout.push(TcpOption::SACK),
            quirks: with_quirk_if(
                w.quirks,
                !(size == 10 || size == 18 || size == 26 || size == 34),
                Quirk::OptBad,
            ),
            ..w
        }
    } else if kind == OPTION_TIMESTAMPS {
        let q = with_quirk_if(
            w.quirks,
            size >= 6 && data[0] == 0 && data[1] == 0 && data[2] == 0 && data[3] == 0,
            Quirk::OwnTimestampZero,
        );
        let q = with_quirk_if(
            q,
            pure_syn && size >= 10 && !(data[4] == 0 && data[5] == 0 && data[6] == 0 && data[7]
                == 0),
            Quirk::PeerTimestampNonZero,
        );
        Walk {
            olayout: w.olayout.push(TcpOption::TS),
            quirks: with_quirk_if(q, size != 10, Quirk::OptBad),
            ..w
        }
    } else {
        Walk { olayout: w.olayout.push(TcpOption::Unknown(kind)), ..w }
    }
}

/// What is known after the options in `opts` from `i` on. An end of list
/// ends the walk: it is listed with the number of bytes after it, which are
/// `opt+` if any of them is not zero. An option that announces more bytes
/// than there are is an error.
pub open spec fn options_walked(opts: Seq<u8>, i: int, pure_syn: bool, w: Walk) -> Result<
    Walk,
    ExtractError,
>
    decreases opts.len() - i,
{
    if i < 0 || i >= opts.len() {
        Ok(w)
    } else if opts[i] == OPTION_EOL {
        Ok(
            Walk {
                olayout: w.olayout.push(TcpOption::EOL((opts.len() - i - 1) as u8)),
                quirks: with_quirk_if(
                    w.quirks,
                    any_nonzero(opts, i + 1),
                    Quirk::TrailinigNonZero,
                ),
                ..w
            },
        )
    } else if opts[i] == OPTION_NOP {
        options_walked(
            opts,
            i + 1,
            pure_syn,
            Walk { olayout: w.olayout.push(TcpOption::NOP), ..w },
        )
    } else {
        let size = option_size(opts.subrange(i, opts.len() as int));
        if i + size > opts.len() {
            Err(ExtractError::Short(Layer::TcpOption))
        } else {
            options_walked(
                opts,
                i + size,
                pure_syn,
                option_seen(w, opts[i], size, opts.subrange(i + 2, i + size), pure_syn),
            )
        }
    }
}

/// The signature of the segment `b`, which came in a packet that gave
/// `version`, `ittl`, `olen` and `quirks`. Only a SYN and a SYN+ACK have
/// one. The window size is the one in the header, and the payload class
/// tells whether any payload is there.
pub open spec fn tcp_visited(
    b: Seq<u8>,
    version: IpVersion,
    ittl: TTL,
    olen: u8,
    quirks: Seq<Quirk>,
) -> Result<SignatureView, ExtractError> {
    match tcp_header(b) {
        None => Err(ExtractError::Short(Layer::Tcp)),
        Some(h) => if !is_syn(h.flags) {
            Err(ExtractError::Flags(h.flags))
        } else {
            match options_walked(
                b.subrange(20, 20 + h.options_len),
                0,
                is_pure_syn(h.flags),
                Walk {
                    mss: None,
                    wscale: None,
                    olayout: Seq::empty(),
                    quirks: tcp_quirks(quirks, h),
                },
            ) {
                Err(e) => Err(e),
                Ok(w) => Ok(
                    SignatureView {
                        version,
                        ittl,
                        olen,
                        mss: w.mss,
                        wsize: WindowSize::Value(h.window),
                        wscale: w.wscale,
                        olayout: w.olayout,
                        quirks: w.quirks,
                        pclass: if h.payload_len == 0 {
                            PayloadSize::Zero
                        } else {
                            PayloadSize::NonZero
                        },
                    },
                ),
            }
        },
    }
}

/// The payload of the IPv4 packet `b` with the header `h`.
pub open spec fn ipv4_payload(b: Seq<u8>, h: Ipv4Header) -> Seq<u8> {
    if h.payload_len == 0 {
        Seq::empty()
    } else {
        b.subrange(20 + h.options_len, 20 + h.options_len + h.payload_len)
    }
}

/// The signature of the segment in the IPv4 packet `b`: the packet is
/// whole and carries TCP, and its TTL is taken as it is.
pub open spec fn ipv4_visited(b: Seq<u8>) -> Result<SignatureView, ExtractError> {
    match ipv4_header(b) {
        None => Err(ExtractError::Short(Layer::Ipv4)),
        Some(h) => if h.protocol != PROTOCOL_TCP {
            Err(ExtractError::Protocol(h.protocol))
        } else if h.fragment_offset > 0 || h.flags & IP4_MF == IP4_MF {
            Err(ExtractError::Fragment)
        } else {
            tcp_visited(
                ipv4_payload(b, h),
                IpVersion::V4,
                TTL::Value(h.ttl),
                h.options_len as u8,
                ipv4_quirks(h),
            )
        },
    }
}

/// The signature of the segment in the IPv6 packet `b`: TCP follows the
/// header at once, and the hop limit is taken as the TTL.
pub open spec fn ipv6_visited(b: Seq<u8>) -> Result<SignatureView, ExtractError> {
    match ipv6_header(b) {
        None => Err(ExtractError::Short(Layer::Ipv6)),
        Some(h) => if h.next_header != PROTOCOL_TCP {
            Err(ExtractError::Protocol(h.next_header))
        } else {
            tcp_visited(
                b.subrange(40, 40 + h.payload_len),
                IpVersion::V6,
                TTL::Value(h.hop_limit),
                0,
                ipv6_quirks(h),
            )
        },
    }
}

/// The signature of the segment in `payload`, which follows a header that
/// names `ethertype`. VLAN tags are passed over, however many.
pub open spec fn ethernet_visited(ethertype: u16, payload: Seq<u8>) -> Result<
    SignatureView,
    ExtractError,
>
    decreases payload.len(),
{
    if ethertype == ETHERTYPE_VLAN {
        match vlan_header(payload) {
            None => Err(ExtractError::Short(Layer::Vlan)),
            Some(h) => ethernet_visited(h.ethertype, payload.subrange(4, payload.len() as int)),
        }
    } else if ethertype == ETHERTYPE_IPV4 {
        ipv4_visited(payload)
    } else if ethertype == ETHERTYPE_IPV6 {
        ipv6_visited(payload)
    } else {
        Err(ExtractError::EtherType(ethertype))
    }
}

/// The signature of the segment in the Ethernet frame `frame`.
pub open spec fn extracted(frame: Seq<u8>) -> Result<SignatureView, ExtractError> {
    match ethernet_header(frame) {
        None => Err(ExtractError::Short(Layer::Ethernet)),
        Some(h) => ethernet_visited(h.ethertype, frame.subrange(14, frame.len() as int)),
    }
}

/// Puts `q` among `quirks`, at the end, unless it is there.
fn add_quirk(quirks: &mut Vec<Quirk>, q: Quirk)
    ensures
        final(quirks)@ == with_quirk(old(quirks)@, q),
{
    let mut i: usize = 0;
    while i < quirks.len()
        invariant
            i <= quirks.len(),
            quirks@ == old(quirks)@,
            forall|k: int| 0 <= k < i ==> quirks@[k] != q,
        decreases quirks.len() - i,
    {
        if quirks[i] == q {
            return ;
        }
        i += 1;
    }
    quirks.push(q);
}

/// Puts `q` among `quirks` if `add` holds.
fn add_quirk_if(quirks: &mut Vec<Quirk>, add: bool, q: Quirk)
    ensures
        final(quirks)@ == with_quirk_if(old(quirks)@, add, q),
{
    if add {
        add_quirk(quirks, q);
    }
}

/// Takes in an option that has a length.
fn see_option(w: Walked, kind: u8, size: usize, data: &[u8], pure_syn: bool) -> (r: Walked)
    requires
        size == data.len() + 2,
    ensures
        r@ == option_seen(w@, kind, size as int, data@, pure_syn),
{
    let mut w = w;
    if kind == OPTION_MSS {
        if size >= 4 {
            w.mss = Some(data[0] as u16 * 256 + data[1] as u16);
        }
        w.olayout.push(TcpOption::MSS);
        add_quirk_if(&mut w.quirks, size != 4, Quirk::OptBad);
    } else if kind == OPTION_WSCALE {
        if size >= 3 {
            w.wscale = Some(data[0]);
            add_quirk_if(&mut w.quirks, data[0] > 14, Quirk::ExcessiveWindowScaling);
        }
        w.olayout.push(TcpOption::WS);
        add_quirk_if(&mut w.quirks, size != 3, Quirk::OptBad);
    } else if kind == OPTION_SACK_PERMITTED {
        w.olayout.push(TcpOption::SOK);
        add_quirk_if(&mut w.quirks, size != 2, Quirk::OptBad);
    } else if kind == OPTION_SACK {
        w.olayout.push(TcpOption::SACK);
        add_quirk_if(
            &mut w.quirks,
            !(size == 10 || size == 18 || size == 26 || size == 34),
            Quirk::OptBad,
        );
    } else if kind == OPTION_TIMESTAMPS {
        let own_zero = size >= 6 && data[0] == 0 && data[1] == 0 && data[2] == 0 && data[3] == 0;
        add_quirk_if(&mut w.quirks, own_zero, Quirk::OwnTimestampZero);
        let peer_nonzero = pure_syn && size >= 10 && !(data[4] == 0 && data[5] == 0 && data[6] == 0
            && data[7] == 0);
        add_quirk_if(&mut w.quirks, peer_nonzero, Quirk::PeerTimestampNonZero);
        w.olayout.push(TcpOption::TS);
        add_quirk_if(&mut w.quirks, size != 10, Quirk::OptBad);
    } else {
        w.olayout.push(TcpOption::Unknown(kind));
    }
    w
}

/// Whether any of the bytes from `from` on is not zero.
fn has_nonzero(bytes: &[u8], from: usize) -> (r: bool)
    requires
        from <= bytes.len(),
    ensures
        r == any_nonzero(bytes@, from as int),
{
    let mut k: usize = from;
    while k < bytes.len()
        invariant
            from <= k <= bytes.len(),
            forall|j: int| from <= j < k ==> bytes@[j] == 0,
        decreases bytes.len() - k,
    {
        if bytes[k] != 0 {
            return true;
        }
        k += 1;
    }
    false
}

/// Goes through the options of a segment.
fn walk_options(opts: &[u8], pure_syn: bool, seen: Walked) -> (r: Result<Walked, ExtractError>)
    requires
        opts.len() <= 255,
    ensures
        match r {
            Ok(out) => options_walked(opts@, 0, pure_syn, seen@) == Ok::<Walk, ExtractError>(out@),
            Err(e) => options_walked(opts@, 0, pure_syn, seen@) == Err::<Walk, ExtractError>(e),
        },
{
    let ghost start = seen@;
    let mut w = seen;
    let mut i: usize = 0;
    while i < opts.len()
        invariant
            i <= opts.len() <= 255,
            start == seen@,
            options_walked(opts@, 0, pure_syn, start) == options_walked(
                opts@,
                i as int,
                pure_syn,
                w@,
            ),
        decreases opts.len() - i,
    {
        let rest = slice_subrange(opts, i, opts.len());
        let h = match read_option(rest) {
            Some(h) => h,
            None => { return Ok(w); },
        };
        if h.kind == OPTION_EOL {
            w.olayout.push(TcpOption::EOL((opts.len() - i - 1) as u8));
            add_quirk_if(&mut w.quirks, has_nonzero(opts, i + 1), Quirk::TrailinigNonZero);
            return Ok(w);
        } else if h.kind == OPTION_NOP {
            w.olayout.push(TcpOption::NOP);
            i += 1;
        } else {
            if h.size > opts.len() - i {
                return Err(ExtractError::Short(Layer::TcpOption));
            }
            let data = slice_subrange(opts, i + 2, i + 2 + h.data_len);
            w = see_option(w, h.kind, h.size, data, pure_syn);
            i += h.size;
        }
    }
    Ok(w)
}

fn visit_tcp(segment: &[u8], version: IpVersion, ittl: TTL, olen: u8, quirks: Vec<Quirk>) -> (r:
    Result<Signature, ExtractError>)
    ensures
        match r {
            Ok(sig) => tcp_visited(segment@, version, ittl, olen, quirks@) == Ok::<
                SignatureView,
                ExtractError,
            >(sig@),
            Err(e) => tcp_visited(segment@, version, ittl, olen, quirks@) == Err::<
                SignatureView,
                ExtractError,
            >(e),
        },
{
    let h = match read_tcp(segment) {
        Some(h) => h,
        None => { return Err(ExtractError::Short(Layer::Tcp)); },
    };
    let flags = h.flags;
    let kind = flags & (TCP_SYN | TCP_ACK | TCP_FIN | TCP_RST);
    if !(kind == TCP_SYN || kind == (TCP_SYN | TCP_ACK)) {
        return Err(ExtractError::Flags(flags));
    }
    let mut quirks = quirks;
    add_quirk_if(
        &mut quirks,
        flags & (TCP_ECE | TCP_CWR) != 0 || h.reserved & TCP_NS != 0,
        Quirk::ECN,
    );
    add_quirk_if(&mut quirks, h.sequence == 0, Quirk::SeqNumZero);
    if flags & TCP_ACK == TCP_ACK {
        add_quirk_if(&mut quirks, h.acknowledgement == 0, Quirk::AckNumZero);
    } else {
        add_quirk_if(
            &mut quirks,
            h.acknowledgement != 0 && flags & TCP_RST == 0,
            Quirk::AckNumNonZero,
        );
    }
    if flags & TCP_URG == TCP_URG {
        add_quirk(&mut quirks, Quirk::URG);
    } else {
        add_quirk_if(&mut quirks, h.urgent_ptr != 0, Quirk::NonZeroURG);
    }
    add_quirk_if(&mut quirks, flags & TCP_PSH == TCP_PSH, Quirk::PUSH);
    let opts = slice_subrange(segment, 20, 20 + h.options_len);
    let start = Walked { mss: None, wscale: None, olayout: Vec::new(), quirks };
    let w = match walk_options(opts, kind == TCP_SYN, start) {
        Ok(w) => w,
        Err(e) => { return Err(e); },
    };
    Ok(
        Signature {
            version,
            ittl,
            olen,
            mss: w.mss,
            wsize: WindowSize::Value(h.window),
            wscale: w.wscale,
            olayout: w.olayout,
            quirks: w.quirks,
            pclass: if h.payload_len == 0 {
                PayloadSize::Zero
            } else {
                PayloadSize::NonZero
            },
        },
    )
}

fn visit_ipv4(packet: &[u8]) -> (r: Result<Signature, ExtractError>)
    ensures
        match r {
            Ok(sig) => ipv4_visited(packet@) == Ok::<SignatureView, ExtractError>(sig@),
            Err(e) => ipv4_visited(packet@) == Err::<SignatureView, ExtractError>(e),
        },
{
    let h = match read_ipv4(packet) {
        Some(h) => h,
        None => { return Err(ExtractError::Short(Layer::Ipv4)); },
    };
    if h.protocol != PROTOCOL_TCP {
        return Err(ExtractError::Protocol(h.protocol));
    }
    if h.fragment_offset > 0 || h.flags & IP4_MF == IP4_MF {
        return Err(ExtractError::Fragment);
    }
    let mut quirks: Vec<Quirk> = Vec::new();
    add_quirk_if(&mut quirks, h.ecn & IP_TOS_ECN != 0, Quirk::ECN);
    add_quirk_if(&mut quirks, h.flags & IP4_MBZ != 0, Quirk::MustBeZero);
    if h.flags & IP4_DF != 0 {
        add_quirk(&mut quirks, Quirk::DF);
        add_quirk_if(&mut quirks, h.identification != 0, Quirk::NonZeroID);
    } else {
        add_quirk_if(&mut quirks, h.identification == 0, Quirk::ZeroID);
    }
    let payload = if h.payload_len == 0 {
        slice_subrange(packet, 0, 0)
    } else {
        slice_subrange(packet, 20 + h.options_len, 20 + h.options_len + h.payload_len)
    };
    visit_tcp(payload, IpVersion::V4, TTL::Value(h.ttl), h.options_len as u8, quirks)
}

fn visit_ipv6(packet: &[u8]) -> (r: Result<Signature, ExtractError>)
    ensures
        match r {
            Ok(sig) => ipv6_visited(packet@) == Ok::<SignatureView, ExtractError>(sig@),
            Err(e) => ipv6_visited(packet@) == Err::<SignatureView, ExtractError>(e),
        },
{
    let h = match read_ipv6(packet) {
        Some(h) => h,
        None => { return Err(ExtractError::Short(Layer::Ipv6)); },
    };
    if h.next_header != PROTOCOL_TCP {
        return Err(ExtractError::Protocol(h.next_header));
    }
    let mut quirks: Vec<Quirk> = Vec::new();
    add_quirk_if(&mut quirks, h.flow_label != 0, Quirk::FlowID);
    add_quirk_if(&mut quirks, h.traffic_class & IP_TOS_ECN != 0, Quirk::ECN);
    let payload = slice_subrange(packet, 40, 40 + h.payload_len);
    visit_tcp(payload, IpVersion::V6, TTL::Value(h.hop_limit), 0, quirks)
}

fn visit_vlan(packet: &[u8]) -> (r: Result<Signature, ExtractError>)
    ensures
        match r {
            Ok(sig) => ethernet_visited(ETHERTYPE_VLAN, packet@) == Ok::<
                SignatureView,
                ExtractError,
            >(sig@),
            Err(e) => ethernet_visited(ETHERTYPE_VLAN, packet@) == Err::<
                SignatureView,
                ExtractError,
            >(e),
        },
    decreases packet.len(), 0int,
{
    match read_vlan(packet) {
        Some(h) => visit_ethernet(
            h.ethertype,
            slice_subrange(packet, packet.len() - h.payload_len, packet.len()),
        ),
        None => Err(ExtractError::Short(Layer::Vlan)),
    }
}

fn visit_ethernet(ethertype: u16, payload: &[u8]) -> (r: Result<Signature, ExtractError>)
    ensures
        match r {
            Ok(sig) => ethernet_visited(ethertype, payload@) == Ok::<SignatureView, ExtractError>(
                sig@,
            ),
            Err(e) => ethernet_visited(ethertype, payload@) == Err::<SignatureView, ExtractError>(
                e,
            ),
        },
    decreases payload.len(), 1int,
{
    if ethertype == ETHERTYPE_VLAN {
        visit_vlan(payload)
    } else if ethertype == ETHERTYPE_IPV4 {
        visit_ipv4(payload)
    } else if ethertype == ETHERTYPE_IPV6 {
        visit_ipv6(payload)
    } else {
        Err(ExtractError::EtherType(ethertype))
    }
}

impl Signature {
    /// The signature of the TCP segment in an Ethernet frame.
    pub fn extract(packet: &[u8]) -> (r: Result<Signature, ExtractError>)
        ensures
            match r {
                Ok(sig) => extracted(packet@) == Ok::<SignatureView, ExtractError>(sig@)
                    && is_observed(sig@),
                Err(e) => extracted(packet@) == Err::<SignatureView, ExtractError>(e),
            },
    {
        proof {
            extracted_is_observed(packet@);
        }
        match read_ethernet(packet) {
            Some(h) => visit_ethernet(
                h.ethertype,
                slice_subrange(packet, packet.len() - h.payload_len, packet.len()),
            ),
            None => Err(ExtractError::Short(Layer::Ethernet)),
        }
    }
}

/// Whether a signature is of the kind that a segment gives: nothing in it
/// is left open, no quirk is listed twice, and a window scale over 14 comes
/// with the quirk `exws`.
pub open spec fn is_observed(sig: SignatureView) -> bool {
    &&& sig.version != IpVersion::Any
    &&& sig.ittl is Value
    &&& sig.olen <= 40
    &&& sig.wsize is Value
    &&& sig.pclass != PayloadSize::Any
    &&& sig.quirks.no_duplicates()
    &&& match sig.wscale {
        Some(scale) => scale > 14 ==> sig.quirks.contains(Quirk::ExcessiveWindowScaling),
        None => true,
    }
}

/// Whether what the options have told so far holds no quirk twice and has
/// `exws` beside a window scale over 14.
pub open spec fn is_sound(w: Walk) -> bool {
    &&& w.quirks.no_duplicates()
    &&& match w.wscale {
        Some(scale) => scale > 14 ==> w.quirks.contains(Quirk::ExcessiveWindowScaling),
        None => true,
    }
}

/// Adding a quirk keeps the quirks distinct and loses none of them.
proof fn lemma_with_quirk(quirks: Seq<Quirk>, add: bool, q: Quirk)
    requires
        quirks.no_duplicates(),
    ensures
        with_quirk_if(quirks, add, q).no_duplicates(),
        add ==> with_quirk_if(quirks, add, q).contains(q),
        forall|x: Quirk| quirks.contains(x) ==> with_quirk_if(quirks, add, q).contains(x),
{
    if add && !quirks.contains(q) {
        let out = quirks.push(q);
        assert(out[quirks.len() as int] == q);
        assert forall|x: Quirk| quirks.contains(x) implies out.contains(x) by {
            let k = choose|k: int| 0 <= k < quirks.len() && quirks[k] == x;
            assert(out[k] == x);
        }
    }
}

/// The SYN and the SYN+ACK are the segments that have SYN and neither FIN
/// nor RST among their flags.
pub proof fn syn_flags(flags: u8)
    ensures
        is_syn(flags) <==> flags & TCP_SYN != 0 && flags & TCP_FIN == 0 && flags & TCP_RST == 0,
        is_pure_syn(flags) <==> is_syn(flags) && flags & TCP_ACK == 0,
{
    assert(((flags & 0x17) == 0x02 || (flags & 0x17) == 0x12) <==> (flags & 0x02 != 0 && flags
        & 0x01 == 0 && flags & 0x04 == 0)) by (bit_vector);
    assert(((flags & 0x17) == 0x02) <==> (((flags & 0x17) == 0x02 || (flags & 0x17) == 0x12)
        && flags & 0x10 == 0)) by (bit_vector);
    assert(TCP_SYN | TCP_ACK | TCP_FIN | TCP_RST == 0x17) by (bit_vector);
    assert(TCP_SYN | TCP_ACK == 0x12) by (bit_vector);
}

proof fn lemma_option_seen(w: Walk, kind: u8, size: int, data: Seq<u8>, pure_syn: bool)
    requires
        is_sound(w),
    ensures
        is_sound(option_seen(w, kind, size, data, pure_syn)),
{
    if kind == OPTION_MSS {
        lemma_with_quirk(w.quirks, size != 4, Quirk::OptBad);
    } else if kind == OPTION_WSCALE {
        let excess = size >= 3 && data[0] > 14;
        lemma_with_quirk(w.quirks, excess, Quirk::ExcessiveWindowScaling);
        let q = with_quirk_if(w.quirks, excess, Quirk::ExcessiveWindowScaling);
        lemma_with_quirk(q, size != 3, Quirk::OptBad);
    } else if kind == OPTION_SACK_PERMITTED {
        lemma_with_quirk(w.quirks, size != 2, Quirk::OptBad);
    } else if kind == OPTION_SACK {
        lemma_with_quirk(
            w.quirks,
            !(size == 10 || size == 18 || size == 26 || size == 34),
            Quirk::OptBad,
        );
    } else if kind == OPTION_TIMESTAMPS {
        let own = size >= 6 && data[0] == 0 && data[1] == 0 && data[2] == 0 && data[3] == 0;
        let peer = pure_syn && size >= 10 && !(data[4] == 0 && data[5] == 0 && data[6] == 0
            && data[7] == 0);
        lemma_with_quirk(w.quirks, own, Quirk::OwnTimestampZero);
        let q = with_quirk_if(w.quirks, own, Quirk::OwnTimestampZero);
        lemma_with_quirk(q, peer, Quirk::PeerTimestampNonZero);
        let q = with_quirk_if(q, peer, Quirk::PeerTimestampNonZero);
        lemma_with_quirk(q, size != 10, Quirk::OptBad);
    }
}

proof fn lemma_options_walked(opts: Seq<u8>, i: int, pure_syn: bool, w: Walk)
    requires
        is_sound(w),
    ensures
        match options_walked(opts, i, pure_syn, w) {
            Ok(out) => is_sound(out),
            Err(_) => true,
        },
    decreases opts.len() - i,
{
    if i < 0 || i >= opts.len() {
    } else if opts[i] == OPTION_EOL {
        lemma_with_quirk(w.quirks, any_nonzero(opts, i + 1), Quirk::TrailinigNonZero);
    } else if opts[i] == OPTION_NOP {
        lemma_options_walked(
            opts,
            i + 1,
            pure_syn,
            Walk { olayout: w.olayout.push(TcpOption::NOP), ..w },
        );
    } else {
        let size = option_size(opts.subrange(i, opts.len() as int));
        if i + size <= opts.len() {
            let data = opts.subrange(i + 2, i + size);
            lemma_option_seen(w, opts[i], size, data, pure_syn);
            lemma_options_walked(
                opts,
                i + size,
                pure_syn,
                option_seen(w, opts[i], size, data, pure_syn),
            );
        }
    }
}

proof fn lemma_tcp_visited(b: Seq<u8>, version: IpVersion, ittl: TTL, olen: u8, quirks: Seq<Quirk>)
    requires
        version != IpVersion::Any,
        ittl is Value,
        olen <= 40,
        quirks.no_duplicates(),
    ensures
        match tcp_visited(b, version, ittl, olen, quirks) {
            Ok(sig) => is_observed(sig),
            Err(_) => true,
        },
{
    match tcp_header(b) {
        Some(h) => {
            let ecn = h.flags & (TCP_ECE | TCP_CWR) != 0 || h.reserved & TCP_NS != 0;
            lemma_with_quirk(quirks, ecn, Quirk::ECN);
            let q = with_quirk_if(quirks, ecn, Quirk::ECN);
            lemma_with_quirk(q, h.sequence == 0, Quirk::SeqNumZero);
            let q = with_quirk_if(q, h.sequence == 0, Quirk::SeqNumZero);
            let q = if h.flags & TCP_ACK == TCP_ACK {
                lemma_with_quirk(q, h.acknowledgement == 0, Quirk::AckNumZero);
                with_quirk_if(q, h.acknowledgement == 0, Quirk::AckNumZero)
            } else {
                let add = h.acknowledgement != 0 && h.flags & TCP_RST == 0;
                lemma_with_quirk(q, add, Quirk::AckNumNonZero);
                with_quirk_if(q, add, Quirk::AckNumNonZero)
            };
            let q = if h.flags & TCP_URG == TCP_URG {
                lemma_with_quirk(q, true, Quirk::URG);
                with_quirk(q, Quirk::URG)
            } else {
                lemma_with_quirk(q, h.urgent_ptr != 0, Quirk::NonZeroURG);
                with_quirk_if(q, h.urgent_ptr != 0, Quirk::NonZeroURG)
            };
            lemma_with_quirk(q, h.flags & TCP_PSH == TCP_PSH, Quirk::PUSH);
            lemma_options_walked(
                b.subrange(20, 20 + h.options_len),
                0,
                is_pure_syn(h.flags),
                Walk {
                    mss: None,
                    wscale: None,
                    olayout: Seq::empty(),
                    quirks: tcp_quirks(quirks, h),
                },
            );
        },
        None => {},
    }
}

proof fn lemma_ethernet_visited(ethertype: u16, payload: Seq<u8>)
    ensures
        match ethernet_visited(ethertype, payload) {
            Ok(sig) => is_observed(sig),
            Err(_) => true,
        },
    decreases payload.len(),
{
    let none = Seq::<Quirk>::empty();
    if ethertype == ETHERTYPE_VLAN {
        match vlan_header(payload) {
            Some(h) => {
                lemma_ethernet_visited(h.ethertype, payload.subrange(4, payload.len() as int));
            },
            None => {},
        }
    } else if ethertype == ETHERTYPE_IPV4 {
        match ipv4_header(payload) {
            Some(h) => {
                lemma_with_quirk(none, h.ecn & IP_TOS_ECN != 0, Quirk::ECN);
                let q = with_quirk_if(none, h.ecn & IP_TOS_ECN != 0, Quirk::ECN);
                lemma_with_quirk(q, h.flags & IP4_MBZ != 0, Quirk::MustBeZero);
                let q = with_quirk_if(q, h.flags & IP4_MBZ != 0, Quirk::MustBeZero);
                if h.flags & IP4_DF != 0 {
                    lemma_with_quirk(q, true, Quirk::DF);
                    lemma_with_quirk(
                        with_quirk(q, Quirk::DF),
                        h.identification != 0,
                        Quirk::NonZeroID,
                    );
                } else {
                    lemma_with_quirk(q, h.identification == 0, Quirk::ZeroID);
                }
                lemma_tcp_visited(
                    ipv4_payload(payload, h),
                    IpVersion::V4,
                    TTL::Value(h.ttl),
                    h.options_len as u8,
                    ipv4_quirks(h),
                );
            },
            None => {},
        }
    } else if ethertype == ETHERTYPE_IPV6 {
        match ipv6_header(payload) {
            Some(h) => {
                lemma_with_quirk(none, h.flow_label != 0, Quirk::FlowID);
                let q = with_quirk_if(none, h.flow_label != 0, Quirk::FlowID);
                lemma_with_quirk(q, h.traffic_class & IP_TOS_ECN != 0, Quirk::ECN);
                lemma_tcp_visited(
                    payload.subrange(40, 40 + h.payload_len),
                    IpVersion::V6,
                    TTL::Value(h.hop_limit),
                    0,
                    ipv6_quirks(h),
                );
            },
            None => {},
        }
    }
}

/// The signature of a frame is of the kind that a segment gives.
pub proof fn extracted_is_observed(frame: Seq<u8>)
    ensures
        match extracted(frame) {
            Ok(sig) => is_observed(sig),
            Err(_) => true,
        },
{
    match ethernet_header(frame) {
        Some(h) => {
            lemma_ethernet_visited(h.ethertype, frame.subrange(14, frame.len() as int));
        },
        None => {},
    }
}

} // verus!
