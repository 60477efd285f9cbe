use p0f::packet as own;
use p0f::packet::{ExtractError, Layer};
use p0f::tcp::Quirk::{
    AckNumNonZero, AckNumZero, ExcessiveWindowScaling, FlowID, MustBeZero, NonZeroID, NonZeroURG,
    OptBad, OwnTimestampZero, PeerTimestampNonZero, SeqNumZero, TrailinigNonZero, ZeroID, DF, ECN,
    PUSH, URG,
};
use p0f::tcp::TcpOption::{Unknown, EOL, MSS, NOP, SACK, SOK, TS, WS};
use p0f::tcp::{IpVersion, PayloadSize, Signature, WindowSize, TTL};
use pnet::packet::ethernet::EtherTypes;
use pnet::packet::ip::IpNextHeaderProtocols;
use pnet::packet::ipv4::Ipv4Flags;
use pnet::packet::tcp::{TcpFlags, TcpOptionNumbers};

const FIN: u8 = 0x01;
const SYN: u8 = 0x02;
const RST: u8 = 0x04;
const PSH: u8 = 0x08;
const ACK: u8 = 0x10;
const URGF: u8 = 0x20;
const ECE: u8 = 0x40;
const CWR: u8 = 0x80;

/// MSS 1460, SACK permitted, timestamps, no-op, window scale 7
const LINUX_OPTIONS: [u8; 20] = [
    2, 4, 0x05, 0xb4, 4, 2, 8, 10, 0x00, 0x1c, 0x3d, 0x11, 0, 0, 0, 0, 1, 3, 3, 7,
];

struct Segment {
    seq: u32,
    ack: u32,
    reserved: u8,
    flags: u8,
    window: u16,
    urgent: u16,
    options: Vec<u8>,
    payload: Vec<u8>,
}

fn syn(options: &[u8]) -> Segment {
    Segment {
        seq: 0x01020304,
        ack: 0,
        reserved: 0,
        flags: SYN,
        window: 65535,
        urgent: 0,
        options: options.to_vec(),
        payload: vec![],
    }
}

fn tcp(s: &Segment) -> Vec<u8> {
    assert_eq!(s.options.len() % 4, 0);
    let mut b = vec![0xc0, 0x01, 0x00, 0x50];
    b.extend_from_slice(&s.seq.to_be_bytes());
    b.extend_from_slice(&s.ack.to_be_bytes());
    b.push((((20 + s.options.len()) / 4) as u8) << 4 | s.reserved);
    b.push(s.flags);
    b.extend_from_slice(&s.window.to_be_bytes());
    b.extend_from_slice(&[0, 0]);
    b.extend_from_slice(&s.urgent.to_be_bytes());
    b.extend_from_slice(&s.options);
    b.extend_from_slice(&s.payload);
    b
}

struct Ip4 {
    tos: u8,
    id: u16,
    flags: u8,
    offset: u16,
    ttl: u8,
    protocol: u8,
    options: Vec<u8>,
}

fn ip4() -> Ip4 {
    Ip4 {
        tos: 0,
        id: 0x1234,
        flags: 0b010,
        offset: 0,
        ttl: 64,
        protocol: 6,
        options: vec![],
    }
}

fn ipv4(h: &Ip4, payload: &[u8]) -> Vec<u8> {
    assert_eq!(h.options.len() % 4, 0);
    let header = 20 + h.options.len();
    let mut b = vec![0x40 | (header / 4) as u8, h.tos];
    b.extend_from_slice(&((header + payload.len()) as u16).to_be_bytes());
    b.extend_from_slice(&h.id.to_be_bytes());
    b.extend_from_slice(&(((h.flags as u16) << 13) | h.offset).to_be_bytes());
    b.push(h.ttl);
    b.push(h.protocol);
    b.extend_from_slice(&[0, 0]);
    b.extend_from_slice(&[192, 168, 0, 1]);
    b.extend_from_slice(&[192, 168, 0, 2]);
    b.extend_from_slice(&h.options);
    b.extend_from_slice(payload);
    b
}

fn ipv6(traffic_class: u8, flow: u32, next: u8, hops: u8, payload: &[u8]) -> Vec<u8> {
    let word = (6u32 << 28) | ((traffic_class as u32) << 20) | flow;
    let mut b = word.to_be_bytes().to_vec();
    b.extend_from_slice(&(payload.len() as u16).to_be_bytes());
    b.push(next);
    b.push(hops);
    b.extend_from_slice(&[0u8; 32]);
    b.extend_from_slice(payload);
    b
}

fn ethernet(ethertype: u16, payload: &[u8]) -> Vec<u8> {
    let mut b = vec![0u8; 12];
    b.extend_from_slice(&ethertype.to_be_bytes());
    b.extend_from_slice(payload);
    b
}

fn vlan(ethertype: u16, payload: &[u8]) -> Vec<u8> {
    let mut b = vec![0x20, 0x64];
    b.extend_from_slice(&ethertype.to_be_bytes());
    b.extend_from_slice(payload);
    b
}

fn frame4(h: &Ip4, s: &Segment) -> Vec<u8> {
    ethernet(0x0800, &ipv4(h, &tcp(s)))
}

fn extract4(s: &Segment) -> Signature {
    Signature::extract(&frame4(&ip4(), s)).unwrap()
}

fn linux() -> Signature {
    Signature {
        version: IpVersion::V4,
        ittl: TTL::Value(64),
        olen: 0,
        mss: Some(1460),
        wsize: WindowSize::Value(65535),
        wscale: Some(7),
        olayout: vec![MSS, SOK, TS, NOP, WS],
        quirks: vec![DF, NonZeroID],
        pclass: PayloadSize::Zero,
    }
}

#[test]
fn extract_linux_syn() {
    let sig = extract4(&syn(&LINUX_OPTIONS));
    assert_eq!(sig, linux());
    assert_eq!(sig.to_text(), "4:64:0:1460:65535,7:mss,sok,ts,nop,ws:df,id+:0");
}

#[test]
fn extract_header_fields() {
    let mut h = ip4();
    h.ttl = 128;
    let mut s = syn(&[2, 4, 0x02, 0x18]);
    s.window = 8192;
    let sig = Signature::extract(&frame4(&h, &s)).unwrap();
    assert_eq!(sig.version, IpVersion::V4);
    assert_eq!(sig.ittl, TTL::Value(128));
    assert_eq!(sig.mss, Some(536));
    assert_eq!(sig.wsize, WindowSize::Value(8192));
    assert_eq!(sig.wscale, None);
    assert_eq!(sig.olayout, vec![MSS]);
    let none = extract4(&syn(&[]));
    assert_eq!(none.mss, None);
    assert_eq!(none.olayout, vec![]);
    assert_eq!(none.quirks, vec![DF, NonZeroID]);
}

#[test]
fn extract_syn_ack() {
    let mut s = syn(&LINUX_OPTIONS);
    s.flags = SYN | ACK;
    s.ack = 77;
    assert_eq!(extract4(&s), linux());
    s.ack = 0;
    assert_eq!(extract4(&s).quirks, vec![DF, NonZeroID, AckNumZero]);
    s.options[12] = 9;
    assert_eq!(extract4(&s).quirks, vec![DF, NonZeroID, AckNumZero]);
}

#[test]
fn extract_ip_quirks() {
    let s = syn(&LINUX_OPTIONS);
    let quirks = |h: &Ip4| Signature::extract(&frame4(h, &s)).unwrap().quirks;
    let mut h = ip4();
    h.id = 0;
    assert_eq!(quirks(&h), vec![DF]);
    h.flags = 0;
    assert_eq!(quirks(&h), vec![ZeroID]);
    h.id = 9;
    assert_eq!(quirks(&h), vec![]);
    h.flags = 0b100;
    assert_eq!(quirks(&h), vec![MustBeZero]);
    h.flags = 0b110;
    h.tos = 0x01;
    assert_eq!(quirks(&h), vec![ECN, MustBeZero, DF, NonZeroID]);
    h.tos = 0x02;
    h.flags = 0b010;
    assert_eq!(quirks(&h), vec![ECN, DF, NonZeroID]);
    h.tos = 0xfc;
    assert_eq!(quirks(&h), vec![DF, NonZeroID]);
}

#[test]
fn extract_tcp_quirks() {
    let quirks = |s: &Segment| extract4(s).quirks;
    let mut s = syn(&[]);
    s.seq = 0;
    assert_eq!(quirks(&s), vec![DF, NonZeroID, SeqNumZero]);
    s.seq = 1;
    s.ack = 5;
    assert_eq!(quirks(&s), vec![DF, NonZeroID, AckNumNonZero]);
    s.ack = 0;
    s.urgent = 3;
    assert_eq!(quirks(&s), vec![DF, NonZeroID, NonZeroURG]);
    s.flags = SYN | URGF;
    assert_eq!(quirks(&s), vec![DF, NonZeroID, URG]);
    s.urgent = 0;
    assert_eq!(quirks(&s), vec![DF, NonZeroID, URG]);
    s.flags = SYN | PSH;
    assert_eq!(quirks(&s), vec![DF, NonZeroID, PUSH]);
    s.flags = SYN | ECE;
    assert_eq!(quirks(&s), vec![DF, NonZeroID, ECN]);
    s.flags = SYN | CWR;
    assert_eq!(quirks(&s), vec![DF, NonZeroID, ECN]);
    s.flags = SYN;
    s.reserved = 0x1;
    assert_eq!(quirks(&s), vec![DF, NonZeroID, ECN]);
    s.reserved = 0xe;
    assert_eq!(quirks(&s), vec![DF, NonZeroID]);
    s.seq = 0;
    s.ack = 1;
    s.flags = SYN | ECE | CWR | URGF | PSH;
    assert_eq!(
        quirks(&s),
        vec![DF, NonZeroID, ECN, SeqNumZero, AckNumNonZero, URG, PUSH]
    );
}

#[test]
fn extract_quirks_once() {
    let mut h = ip4();
    h.tos = 0x03;
    let mut s = syn(&[2, 3, 0, 3, 4, 20, 9, 4, 3, 0, 1, 1]);
    s.flags = SYN | ECE;
    let sig = Signature::extract(&frame4(&h, &s)).unwrap();
    assert_eq!(
        sig.quirks,
        vec![ECN, DF, NonZeroID, OptBad, ExcessiveWindowScaling]
    );
    assert_eq!(sig.olayout, vec![MSS, WS, SOK, NOP, NOP]);
    assert_eq!(sig.wscale, Some(20));
}

#[test]
fn extract_option_lengths() {
    let sig = |o: &[u8]| extract4(&syn(o));
    let mss = sig(&[2, 4, 0x05, 0xb4]);
    assert_eq!((mss.mss, mss.quirks), (Some(1460), vec![DF, NonZeroID]));
    let long = sig(&[2, 6, 0x05, 0xb4, 9, 9, 1, 1]);
    assert_eq!(long.mss, Some(1460));
    assert_eq!(long.quirks, vec![DF, NonZeroID, OptBad]);
    assert_eq!(long.olayout, vec![MSS, NOP, NOP]);
    let short = sig(&[2, 3, 0x05, 1]);
    assert_eq!(short.mss, None);
    assert_eq!(short.quirks, vec![DF, NonZeroID, OptBad]);
    assert_eq!(short.olayout, vec![MSS, NOP]);
    let none = sig(&[2, 0, 2, 1]);
    assert_eq!(none.mss, None);
    assert_eq!(none.quirks, vec![DF, NonZeroID, OptBad]);
    assert_eq!(none.olayout, vec![MSS, MSS]);
    let ws = sig(&[3, 3, 14, 1]);
    assert_eq!((ws.wscale, ws.quirks), (Some(14), vec![DF, NonZeroID]));
    let exws = sig(&[3, 3, 15, 1]);
    assert_eq!(exws.wscale, Some(15));
    assert_eq!(exws.quirks, vec![DF, NonZeroID, ExcessiveWindowScaling]);
    let ws4 = sig(&[3, 4, 200, 0]);
    assert_eq!(ws4.wscale, Some(200));
    assert_eq!(
        ws4.quirks,
        vec![DF, NonZeroID, ExcessiveWindowScaling, OptBad]
    );
    let ws2 = sig(&[3, 2, 1, 1]);
    assert_eq!(ws2.wscale, None);
    assert_eq!(ws2.quirks, vec![DF, NonZeroID, OptBad]);
    assert_eq!(sig(&[4, 2, 1, 1]).quirks, vec![DF, NonZeroID]);
    assert_eq!(sig(&[4, 3, 0, 1]).quirks, vec![DF, NonZeroID, OptBad]);
    let mut sack = vec![5, 10, 0, 0, 0, 1, 0, 0, 0, 2, 1, 1];
    assert_eq!(sig(&sack).quirks, vec![DF, NonZeroID]);
    assert_eq!(sig(&sack).olayout, vec![SACK, NOP, NOP]);
    sack[1] = 12;
    assert_eq!(sig(&sack).quirks, vec![DF, NonZeroID, OptBad]);
    assert_eq!(sig(&sack).olayout, vec![SACK]);
    let unknown = sig(&[30, 4, 0, 0, 254, 2, 1, 1]);
    assert_eq!(unknown.olayout, vec![Unknown(30), Unknown(254), NOP, NOP]);
    assert_eq!(unknown.quirks, vec![DF, NonZeroID]);
}

#[test]
fn extract_timestamps() {
    let ts = |own: u32, peer: u32, flags: u8| {
        let mut o = vec![8, 10];
        o.extend_from_slice(&own.to_be_bytes());
        o.extend_from_slice(&peer.to_be_bytes());
        o.extend_from_slice(&[1, 1]);
        let mut s = syn(&o);
        s.flags = flags;
        s.ack = if flags & ACK != 0 { 1 } else { 0 };
        extract4(&s).quirks
    };
    assert_eq!(ts(1, 0, SYN), vec![DF, NonZeroID]);
    assert_eq!(ts(0, 0, SYN), vec![DF, NonZeroID, OwnTimestampZero]);
    assert_eq!(ts(0x0100_0000, 0, SYN), vec![DF, NonZeroID]);
    assert_eq!(ts(0x0001_0000, 0, SYN), vec![DF, NonZeroID]);
    assert_eq!(ts(1, 1, SYN), vec![DF, NonZeroID, PeerTimestampNonZero]);
    assert_eq!(ts(1, 0x0100_0000, SYN), vec![DF, NonZeroID, PeerTimestampNonZero]);
    assert_eq!(
        ts(0, 5, SYN),
        vec![DF, NonZeroID, OwnTimestampZero, PeerTimestampNonZero]
    );
    assert_eq!(ts(1, 1, SYN | ACK), vec![DF, NonZeroID]);
    assert_eq!(ts(0, 1, SYN | ACK), vec![DF, NonZeroID, OwnTimestampZero]);
    let short = extract4(&syn(&[8, 6, 0, 0, 0, 0, 1, 1]));
    assert_eq!(short.quirks, vec![DF, NonZeroID, OwnTimestampZero, OptBad]);
    assert_eq!(short.olayout, vec![TS, NOP, NOP]);
    let empty = extract4(&syn(&[8, 2, 1, 1]));
    assert_eq!(empty.quirks, vec![DF, NonZeroID, OptBad]);
}

#[test]
fn extract_end_of_list() {
    let sig = extract4(&syn(&[2, 4, 0x05, 0xb4, 0, 0, 0, 0]));
    assert_eq!(sig.olayout, vec![MSS, EOL(3)]);
    assert_eq!(sig.quirks, vec![DF, NonZeroID]);
    let sig = extract4(&syn(&[2, 4, 0x05, 0xb4, 1, 1, 1, 0]));
    assert_eq!(sig.olayout, vec![MSS, NOP, NOP, NOP, EOL(0)]);
    assert_eq!(sig.quirks, vec![DF, NonZeroID]);
    let sig = extract4(&syn(&[0, 0, 0, 7, 3, 3, 9, 0]));
    assert_eq!(sig.olayout, vec![EOL(7)]);
    assert_eq!(sig.wscale, None);
    assert_eq!(sig.quirks, vec![DF, NonZeroID, TrailinigNonZero]);
}

#[test]
fn extract_option_past_end() {
    let short = |o: &[u8]| Signature::extract(&frame4(&ip4(), &syn(o)));
    assert_eq!(
        short(&[2, 4, 0x05, 0xb4, 1, 1, 3, 3]),
        Err(ExtractError::Short(Layer::TcpOption))
    );
    assert_eq!(
        short(&[1, 1, 1, 9]),
        Err(ExtractError::Short(Layer::TcpOption))
    );
    assert_eq!(
        short(&[8, 10, 0, 0]),
        Err(ExtractError::Short(Layer::TcpOption))
    );
    assert_eq!(
        short(&[2, 255, 0, 0]),
        Err(ExtractError::Short(Layer::TcpOption))
    );
    let mut cut = frame4(&ip4(), &syn(&LINUX_OPTIONS));
    cut.truncate(14 + 20 + 20 + 18);
    assert_eq!(
        Signature::extract(&cut),
        Err(ExtractError::Short(Layer::TcpOption))
    );
    cut.truncate(14 + 20 + 20 + 17);
    let sig = Signature::extract(&cut).unwrap();
    assert_eq!(sig.olayout, vec![MSS, SOK, TS, NOP]);
    assert_eq!(sig.wscale, None);
}

#[test]
fn extract_payload_class() {
    let mut s = syn(&LINUX_OPTIONS);
    s.payload = vec![b'G', b'E', b'T'];
    assert_eq!(extract4(&s).pclass, PayloadSize::NonZero);
    s.payload = vec![0];
    assert_eq!(extract4(&s).pclass, PayloadSize::NonZero);
    s.payload = vec![];
    let mut padded = frame4(&ip4(), &s);
    padded.extend_from_slice(&[0, 0, 0, 0, 0, 0]);
    assert_eq!(Signature::extract(&padded).unwrap(), linux());
}

#[test]
fn extract_ip_options() {
    let mut h = ip4();
    h.options = vec![1, 1, 1, 0];
    let sig = Signature::extract(&frame4(&h, &syn(&LINUX_OPTIONS))).unwrap();
    assert_eq!(sig.olen, 4);
    assert_eq!(sig.mss, Some(1460));
    h.options = vec![0; 40];
    let sig = Signature::extract(&frame4(&h, &syn(&LINUX_OPTIONS))).unwrap();
    assert_eq!(sig.olen, 40);
    assert_eq!(sig.olayout, vec![MSS, SOK, TS, NOP, WS]);
}

#[test]
fn extract_rejects_flags() {
    let flags = |f: u8| {
        let mut s = syn(&LINUX_OPTIONS);
        s.flags = f;
        Signature::extract(&frame4(&ip4(), &s))
    };
    for f in [
        SYN | FIN,
        SYN | RST,
        FIN | RST,
        0,
        SYN | ACK | FIN,
        SYN | FIN | RST,
        ACK,
        FIN,
        RST,
        RST | ACK,
        FIN | ACK,
        PSH | URGF,
    ]
    .iter()
    {
        assert_eq!(flags(*f), Err(ExtractError::Flags(*f)));
    }
    assert!(flags(SYN).is_ok());
    assert!(flags(SYN | ACK).is_ok());
    assert!(flags(SYN | PSH | URGF | ECE | CWR).is_ok());
}

#[test]
fn extract_rejects_fragments() {
    let s = syn(&LINUX_OPTIONS);
    let mut h = ip4();
    h.flags = 0b001;
    assert_eq!(
        Signature::extract(&frame4(&h, &s)),
        Err(ExtractError::Fragment)
    );
    h.flags = 0b011;
    assert_eq!(
        Signature::extract(&frame4(&h, &s)),
        Err(ExtractError::Fragment)
    );
    h.flags = 0b010;
    h.offset = 1;
    assert_eq!(
        Signature::extract(&frame4(&h, &s)),
        Err(ExtractError::Fragment)
    );
    h.flags = 0;
    h.offset = 0x1fff;
    assert_eq!(
        Signature::extract(&frame4(&h, &s)),
        Err(ExtractError::Fragment)
    );
}

#[test]
fn extract_rejects_other_protocols() {
    let s = tcp(&syn(&LINUX_OPTIONS));
    let mut h = ip4();
    h.protocol = 17;
    assert_eq!(
        Signature::extract(&ethernet(0x0800, &ipv4(&h, &s))),
        Err(ExtractError::Protocol(17))
    );
    h.protocol = 1;
    h.flags = 0b001;
    assert_eq!(
        Signature::extract(&ethernet(0x0800, &ipv4(&h, &s))),
        Err(ExtractError::Protocol(1))
    );
    assert_eq!(
        Signature::extract(&ethernet(0x86dd, &ipv6(0, 0, 0, 64, &s))),
        Err(ExtractError::Protocol(0))
    );
    assert_eq!(
        Signature::extract(&ethernet(0x86dd, &ipv6(0, 0, 58, 64, &s))),
        Err(ExtractError::Protocol(58))
    );
    assert_eq!(
        Signature::extract(&ethernet(0x0806, &ipv4(&ip4(), &s))),
        Err(ExtractError::EtherType(0x0806))
    );
    assert_eq!(
        Signature::extract(&ethernet(0x0008, &ipv4(&ip4(), &s))),
        Err(ExtractError::EtherType(0x0008))
    );
}

#[test]
fn extract_rejects_short_frames() {
    let whole = frame4(&ip4(), &syn(&[]));
    assert_eq!(whole.len(), 54);
    let cut = |n: usize| Signature::extract(&whole[..n]);
    assert_eq!(cut(0), Err(ExtractError::Short(Layer::Ethernet)));
    assert_eq!(cut(13), Err(ExtractError::Short(Layer::Ethernet)));
    assert_eq!(cut(14), Err(ExtractError::Short(Layer::Ipv4)));
    assert_eq!(cut(33), Err(ExtractError::Short(Layer::Ipv4)));
    assert_eq!(cut(34), Err(ExtractError::Short(Layer::Tcp)));
    assert_eq!(cut(53), Err(ExtractError::Short(Layer::Tcp)));
    assert!(cut(54).is_ok());
    let six = ethernet(0x86dd, &ipv6(0, 0, 6, 64, &tcp(&syn(&[]))));
    assert_eq!(six.len(), 74);
    assert_eq!(
        Signature::extract(&six[..53]),
        Err(ExtractError::Short(Layer::Ipv6))
    );
    assert_eq!(
        Signature::extract(&six[..54]),
        Err(ExtractError::Short(Layer::Tcp))
    );
    assert_eq!(
        Signature::extract(&six[..73]),
        Err(ExtractError::Short(Layer::Tcp))
    );
    assert!(Signature::extract(&six).is_ok());
    let tagged = ethernet(0x8100, &[0x20, 0x64, 0x08]);
    assert_eq!(
        Signature::extract(&tagged),
        Err(ExtractError::Short(Layer::Vlan))
    );
    let mut lying = ip4();
    lying.options = vec![0; 4];
    let mut packet = ipv4(&lying, &tcp(&syn(&[])));
    packet[2] = 0;
    packet[3] = 30;
    assert_eq!(
        Signature::extract(&ethernet(0x0800, &packet)),
        Err(ExtractError::Short(Layer::Tcp))
    );
}

#[test]
fn extract_vlan() {
    let inner = ipv4(&ip4(), &tcp(&syn(&LINUX_OPTIONS)));
    let one = ethernet(0x8100, &vlan(0x0800, &inner));
    assert_eq!(Signature::extract(&one).unwrap(), linux());
    let two = ethernet(0x8100, &vlan(0x8100, &vlan(0x0800, &inner)));
    assert_eq!(Signature::extract(&two).unwrap(), linux());
    let other = ethernet(0x8100, &vlan(0x88cc, &inner));
    assert_eq!(
        Signature::extract(&other),
        Err(ExtractError::EtherType(0x88cc))
    );
}

#[test]
fn extract_ipv6() {
    let s = tcp(&syn(&LINUX_OPTIONS));
    let sig = Signature::extract(&ethernet(0x86dd, &ipv6(0, 0, 6, 57, &s))).unwrap();
    assert_eq!(
        sig,
        Signature {
            version: IpVersion::V6,
            ittl: TTL::Value(57),
            olen: 0,
            mss: Some(1460),
            wsize: WindowSize::Value(65535),
            wscale: Some(7),
            olayout: vec![MSS, SOK, TS, NOP, WS],
            quirks: vec![],
            pclass: PayloadSize::Zero,
        }
    );
    let quirks = |class: u8, flow: u32| {
        Signature::extract(&ethernet(0x86dd, &ipv6(class, flow, 6, 64, &s)))
            .unwrap()
            .quirks
    };
    assert_eq!(quirks(0, 1), vec![FlowID]);
    assert_eq!(quirks(0, 0x80000), vec![FlowID]);
    assert_eq!(quirks(1, 0), vec![ECN]);
    assert_eq!(quirks(2, 0xfffff), vec![FlowID, ECN]);
    assert_eq!(quirks(0xfc, 0), vec![]);
    let tagged = ethernet(0x8100, &vlan(0x86dd, &ipv6(3, 0, 6, 64, &s)));
    assert_eq!(Signature::extract(&tagged).unwrap().quirks, vec![ECN]);
    let mut data = s.clone();
    data.push(1);
    let with_data = Signature::extract(&ethernet(0x86dd, &ipv6(0, 0, 6, 64, &data))).unwrap();
    assert_eq!(with_data.pclass, PayloadSize::NonZero);
    let mut padded = ethernet(0x86dd, &ipv6(0, 0, 6, 64, &s));
    padded.push(1);
    assert_eq!(
        Signature::extract(&padded).unwrap().pclass,
        PayloadSize::Zero
    );
}

#[test]
fn constants_are_those_of_pnet() {
    assert_eq!(own::ETHERTYPE_IPV4, EtherTypes::Ipv4.0);
    assert_eq!(own::ETHERTYPE_IPV6, EtherTypes::Ipv6.0);
    assert_eq!(own::ETHERTYPE_VLAN, EtherTypes::Vlan.0);
    assert_eq!(own::PROTOCOL_TCP, IpNextHeaderProtocols::Tcp.0);
    assert_eq!(own::IP4_MF, Ipv4Flags::MoreFragments);
    assert_eq!(own::IP4_DF, Ipv4Flags::DontFragment);
    assert_eq!(own::TCP_FIN, TcpFlags::FIN);
    assert_eq!(own::TCP_SYN, TcpFlags::SYN);
    assert_eq!(own::TCP_RST, TcpFlags::RST);
    assert_eq!(own::TCP_PSH, TcpFlags::PSH);
    assert_eq!(own::TCP_ACK, TcpFlags::ACK);
    assert_eq!(own::TCP_URG, TcpFlags::URG);
    assert_eq!(own::TCP_ECE, TcpFlags::ECE);
    assert_eq!(own::TCP_CWR, TcpFlags::CWR);
    assert_eq!(own::OPTION_EOL, TcpOptionNumbers::EOL.0);
    assert_eq!(own::OPTION_NOP, TcpOptionNumbers::NOP.0);
    assert_eq!(own::OPTION_MSS, TcpOptionNumbers::MSS.0);
    assert_eq!(own::OPTION_WSCALE, TcpOptionNumbers::WSCALE.0);
    assert_eq!(own::OPTION_SACK_PERMITTED, TcpOptionNumbers::SACK_PERMITTED.0);
    assert_eq!(own::OPTION_SACK, TcpOptionNumbers::SACK.0);
    assert_eq!(own::OPTION_TIMESTAMPS, TcpOptionNumbers::TIMESTAMPS.0);
}
