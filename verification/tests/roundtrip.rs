use p0f::http::{Header, Signature as HttpSignature, Version};
use p0f::tcp::{
    IpVersion, PayloadSize, Quirk, Signature as TcpSignature, TcpOption, WindowSize, TTL,
};
use p0f::{Label, Type};

/// A stream of numbers that looks random and is the same in every run.
struct Stream(u64);

impl Stream {
    fn next(&mut self) -> u64 {
        self.0 ^= self.0 << 13;
        self.0 ^= self.0 >> 7;
        self.0 ^= self.0 << 17;
        self.0
    }

    fn below(&mut self, n: u64) -> u64 {
        (self.next() >> 11) % n
    }

    fn small(&mut self) -> u8 {
        match self.below(4) {
            0 => 0,
            1 => 255,
            2 => self.below(10) as u8,
            _ => self.below(256) as u8,
        }
    }

    fn wide(&mut self) -> u16 {
        match self.below(4) {
            0 => 0,
            1 => 65535,
            2 => self.below(100) as u16,
            _ => self.below(65536) as u16,
        }
    }

    fn text(&mut self, from: &str, most: u64) -> String {
        let from: Vec<char> = from.chars().collect();
        (0..self.below(most + 1))
            .map(|_| from[self.below(from.len() as u64) as usize])
            .collect()
    }
}

const QUIRKS: [Quirk; 17] = [
    Quirk::DF,
    Quirk::NonZeroID,
    Quirk::ZeroID,
    Quirk::ECN,
    Quirk::MustBeZero,
    Quirk::FlowID,
    Quirk::SeqNumZero,
    Quirk::AckNumNonZero,
    Quirk::AckNumZero,
    Quirk::NonZeroURG,
    Quirk::URG,
    Quirk::PUSH,
    Quirk::OwnTimestampZero,
    Quirk::PeerTimestampNonZero,
    Quirk::TrailinigNonZero,
    Quirk::ExcessiveWindowScaling,
    Quirk::OptBad,
];

fn ttl(s: &mut Stream) -> TTL {
    match s.below(4) {
        0 => TTL::Value(s.small()),
        1 => TTL::Distance(s.small(), s.small()),
        2 => TTL::Guess(s.small()),
        _ => TTL::Bad(s.small()),
    }
}

fn window_size(s: &mut Stream) -> WindowSize {
    match s.below(5) {
        0 => WindowSize::MSS(s.small()),
        1 => WindowSize::MTU(s.small()),
        2 => WindowSize::Value(s.wide()),
        3 => WindowSize::Mod(s.wide()),
        _ => WindowSize::Any,
    }
}

fn tcp_option(s: &mut Stream) -> TcpOption {
    match s.below(8) {
        0 => TcpOption::EOL(s.small()),
        1 => TcpOption::NOP,
        2 => TcpOption::MSS,
        3 => TcpOption::WS,
        4 => TcpOption::SOK,
        5 => TcpOption::SACK,
        6 => TcpOption::TS,
        _ => TcpOption::Unknown(s.small()),
    }
}

fn tcp_signature(s: &mut Stream) -> TcpSignature {
    TcpSignature {
        version: [IpVersion::V4, IpVersion::V6, IpVersion::Any][s.below(3) as usize],
        ittl: ttl(s),
        olen: s.small(),
        mss: if s.below(2) == 0 { None } else { Some(s.wide()) },
        wsize: window_size(s),
        wscale: if s.below(2) == 0 { None } else { Some(s.small()) },
        olayout: (0..s.below(6) + 1).map(|_| tcp_option(s)).collect(),
        quirks: (0..s.below(5))
            .map(|_| QUIRKS[s.below(17) as usize])
            .collect(),
        pclass: [PayloadSize::Zero, PayloadSize::NonZero, PayloadSize::Any][s.below(3) as usize],
    }
}

fn header(s: &mut Stream, listed: bool) -> Header {
    let h = Header {
        optional: s.below(3) == 0,
        name: s.text("Aaz09-X", 6),
        value: if s.below(2) == 0 {
            None
        } else {
            Some(s.text("a,:;=[? *q\u{e9}/", 8))
        },
    };
    if listed && !h.optional && h.name.is_empty() && h.value.is_none() {
        Header {
            optional: true,
            ..h
        }
    } else {
        h
    }
}

fn http_signature(s: &mut Stream) -> HttpSignature {
    HttpSignature {
        version: [Version::V10, Version::V11, Version::Any][s.below(3) as usize],
        horder: (0..s.below(4) + 1).map(|_| header(s, true)).collect(),
        habsent: (0..s.below(3)).map(|_| header(s, true)).collect(),
        expsw: s.text("ab:,/ ]=[?\u{4e2d}", 9),
    }
}

fn label(s: &mut Stream) -> Label {
    let class = match s.below(3) {
        0 => None,
        _ => Some(s.text("unix!w ", 5)),
    };
    let flavor = s.text("3.x: and-newer", 9);
    Label {
        ty: [Type::Specified, Type::Generic][s.below(2) as usize],
        class: class.filter(|c| !c.starts_with('!')),
        name: s.text("Linux !,=[\u{e9}", 7),
        flavor: if flavor.is_empty() {
            None
        } else {
            Some(flavor)
        },
    }
}

#[test]
fn round_trip_small_types() {
    for n in 0..=255u8 {
        for t in [
            TTL::Value(n),
            TTL::Guess(n),
            TTL::Bad(n),
            TTL::Distance(n, n),
            TTL::Distance(n, 255 - n),
            TTL::Distance(7, n),
        ]
        .iter()
        {
            assert_eq!(t.to_text().parse::<TTL>().as_ref(), Ok(t));
        }
        for o in [TcpOption::EOL(n), TcpOption::Unknown(n)].iter() {
            assert_eq!(o.to_text().parse::<TcpOption>().as_ref(), Ok(o));
        }
        for w in [WindowSize::MSS(n), WindowSize::MTU(n)].iter() {
            assert_eq!(w.to_text().parse::<WindowSize>().as_ref(), Ok(w));
        }
    }
    for n in 0..=65535u16 {
        for w in [WindowSize::Value(n), WindowSize::Mod(n)].iter() {
            assert_eq!(w.to_text().parse::<WindowSize>().as_ref(), Ok(w));
        }
    }
    for q in QUIRKS.iter() {
        assert_eq!(q.to_text().parse::<Quirk>().as_ref(), Ok(q));
    }
}

#[test]
fn round_trip_tcp_signatures() {
    let mut s = Stream(0x9e37_79b9_7f4a_7c15);
    for _ in 0..5000 {
        let sig = tcp_signature(&mut s);
        let text = sig.to_text();
        let read = text.parse::<TcpSignature>();
        assert_eq!(read.as_ref(), Ok(&sig), "{}", text);
        assert_eq!(read.unwrap().to_text(), text);
    }
}

#[test]
fn round_trip_http_headers() {
    let mut s = Stream(0x2545_f491_4f6c_dd1d);
    for _ in 0..5000 {
        let h = header(&mut s, false);
        let text = h.to_text();
        let plain = h.value.as_ref().map_or(true, |v| !v.contains(']'));
        let read = text.parse::<Header>();
        if plain {
            assert_eq!(read.as_ref(), Ok(&h), "{}", text);
        }
        if let Ok(read) = read {
            assert_eq!(read.to_text(), text);
        }
    }
}

#[test]
fn round_trip_http_signatures() {
    let mut s = Stream(0xd6e8_feb8_6659_fd93);
    for _ in 0..5000 {
        let sig = http_signature(&mut s);
        let text = sig.to_text();
        let plain = sig
            .horder
            .iter()
            .chain(sig.habsent.iter())
            .all(|h| h.value.as_ref().map_or(true, |v| !v.contains(']')));
        let read = text.parse::<HttpSignature>();
        if plain {
            assert_eq!(read.as_ref(), Ok(&sig), "{}", text);
        }
        if let Ok(read) = read {
            assert_eq!(read.to_text(), text);
        }
    }
}

#[test]
fn round_trip_labels() {
    let mut s = Stream(0x0123_4567_89ab_cdef);
    for _ in 0..5000 {
        let l = label(&mut s);
        let text = l.to_text();
        let plain = !l.name.contains(':') && l.class.as_ref().map_or(true, |c| !c.contains(':'));
        let read = text.parse::<Label>();
        if plain {
            assert_eq!(read.as_ref(), Ok(&l), "{}", text);
        }
        if let Ok(read) = read {
            assert_eq!(read.to_text(), text);
        }
    }
}

#[test]
fn written_as_read() {
    let mut s = Stream(0xfeed_f00d_dead_beef);
    for _ in 0..20000 {
        let text = s.text("sg!:,?=[]01*aZ-x ", 14);
        if let Ok(l) = text.parse::<Label>() {
            assert_eq!(l.to_text(), text);
        }
        if let Ok(h) = text.parse::<Header>() {
            assert_eq!(h.to_text(), text);
        }
        if let Ok(sig) = text.parse::<HttpSignature>() {
            assert_eq!(sig.to_text(), text);
            assert!(!sig.horder.is_empty());
        }
    }
}
