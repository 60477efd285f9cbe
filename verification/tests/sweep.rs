use p0f::packet::{ExtractError, Layer};
use p0f::tcp::{IpVersion, PayloadSize, Quirk, Signature, TcpOption, WindowSize, TTL};

/// A stream of numbers that looks random and is the same in every run.
struct Stream(u64);

impl Stream {
    fn next(&mut self) -> u64 {
        self.0 ^= self.0 << 13;
        self.0 ^= self.0 >> 7;
        self.0 ^= self.0 << 17;
        self.0
    }

    fn below(&mut self, n: u64) -> u64 {
        (self.next() >> 11) % n
    }

    fn byte(&mut self) -> u8 {
        (self.next() >> 24) as u8
    }

    fn pick(&mut self, likely: u8) -> u8 {
        if self.below(8) == 0 {
            self.byte()
        } else {
            likely
        }
    }
}

fn add(quirks: &mut Vec<Quirk>, when: bool, q: Quirk) {
    if when && !quirks.contains(&q) {
        quirks.push(q);
    }
}

fn be16(b: &[u8]) -> u16 {
    u16::from_be_bytes([b[0], b[1]])
}

fn be32(b: &[u8]) -> u32 {
    u32::from_be_bytes([b[0], b[1], b[2], b[3]])
}

/// What the frame should give, worked out from its bytes alone.
fn expected(frame: &[u8]) -> Result<Signature, ExtractError> {
    if frame.len() < 14 {
        return Err(ExtractError::Short(Layer::Ethernet));
    }
    let mut ethertype = be16(&frame[12..]);
    let mut rest = &frame[14..];
    while ethertype == 0x8100 {
        if rest.len() < 4 {
            return Err(ExtractError::Short(Layer::Vlan));
        }
        ethertype = be16(&rest[2..]);
        rest = &rest[4..];
    }
    let mut quirks = vec![];
    let (version, ttl, olen, segment) = match ethertype {
        0x0800 => {
            if rest.len() < 20 {
                return Err(ExtractError::Short(Layer::Ipv4));
            }
            if rest[9] != 6 {
                return Err(ExtractError::Protocol(rest[9]));
            }
            let flags = rest[6] >> 5;
            if be16(&rest[6..]) & 0x1fff != 0 || flags & 1 != 0 {
                return Err(ExtractError::Fragment);
            }
            add(&mut quirks, rest[1] & 3 != 0, Quirk::ECN);
            add(&mut quirks, flags & 4 != 0, Quirk::MustBeZero);
            let id = be16(&rest[4..]);
            add(&mut quirks, flags & 2 != 0, Quirk::DF);
            add(&mut quirks, flags & 2 != 0 && id != 0, Quirk::NonZeroID);
            add(&mut quirks, flags & 2 == 0 && id == 0, Quirk::ZeroID);
            let header = (rest[0] & 15) as usize * 4;
            let start = header.max(20);
            let end = (start + (be16(&rest[2..]) as usize).saturating_sub(header)).min(rest.len());
            let segment = if start < rest.len() { &rest[start..end] } else { &rest[..0] };
            (IpVersion::V4, rest[8], start.min(rest.len()) - 20, segment)
        }
        0x86dd => {
            if rest.len() < 40 {
                return Err(ExtractError::Short(Layer::Ipv6));
            }
            if rest[6] != 6 {
                return Err(ExtractError::Protocol(rest[6]));
            }
            add(&mut quirks, be32(rest) & 0xfffff != 0, Quirk::FlowID);
            add(&mut quirks, (be32(rest) >> 20) & 3 != 0, Quirk::ECN);
            let end = (40 + be16(&rest[4..]) as usize).min(rest.len());
            (IpVersion::V6, rest[7], 0, &rest[40..end])
        }
        other => return Err(ExtractError::EtherType(other)),
    };
    if segment.len() < 20 {
        return Err(ExtractError::Short(Layer::Tcp));
    }
    let flags = segment[13];
    if flags & 0x02 == 0 || flags & 0x05 != 0 {
        return Err(ExtractError::Flags(flags));
    }
    let ack = be32(&segment[8..]);
    add(&mut quirks, flags & 0xc0 != 0 || segment[12] & 1 != 0, Quirk::ECN);
    add(&mut quirks, be32(&segment[4..]) == 0, Quirk::SeqNumZero);
    add(&mut quirks, flags & 0x10 != 0 && ack == 0, Quirk::AckNumZero);
    add(&mut quirks, flags & 0x10 == 0 && ack != 0, Quirk::AckNumNonZero);
    add(&mut quirks, flags & 0x20 != 0, Quirk::URG);
    add(&mut quirks, flags & 0x20 == 0 && be16(&segment[18..]) != 0, Quirk::NonZeroURG);
    add(&mut quirks, flags & 0x08 != 0, Quirk::PUSH);
    let offset = ((segment[12] >> 4) as usize * 4).max(20);
    let options = &segment[20..offset.min(segment.len())];
    let mut mss = None;
    let mut wscale = None;
    let mut olayout = vec![];
    let mut i = 0;
    while i < options.len() {
        let kind = options[i];
        if kind == 0 {
            olayout.push(TcpOption::EOL((options.len() - i - 1) as u8));
            let padding = options[i + 1..].iter().any(|b| *b != 0);
            add(&mut quirks, padding, Quirk::TrailinigNonZero);
            break;
        }
        if kind == 1 {
            olayout.push(TcpOption::NOP);
            i += 1;
            continue;
        }
        let size = match options.get(i + 1) {
            Some(n) if *n >= 2 => *n as usize,
            _ => 2,
        };
        if i + size > options.len() {
            return Err(ExtractError::Short(Layer::TcpOption));
        }
        let data = &options[i + 2..i + size];
        match kind {
            2 => {
                if size >= 4 {
                    mss = Some(be16(data));
                }
                olayout.push(TcpOption::MSS);
                add(&mut quirks, size != 4, Quirk::OptBad);
            }
            3 => {
                if size >= 3 {
                    wscale = Some(data[0]);
                    add(&mut quirks, data[0] > 14, Quirk::ExcessiveWindowScaling);
                }
                olayout.push(TcpOption::WS);
                add(&mut quirks, size != 3, Quirk::OptBad);
            }
            4 => {
                olayout.push(TcpOption::SOK);
                add(&mut quirks, size != 2, Quirk::OptBad);
            }
            5 => {
                olayout.push(TcpOption::SACK);
                add(&mut quirks, ![10, 18, 26, 34].contains(&size), Quirk::OptBad);
            }
            8 => {
                add(&mut quirks, size >= 6 && be32(data) == 0, Quirk::OwnTimestampZero);
                let peer = flags & 0x10 == 0 && size >= 10 && be32(&data[4..]) != 0;
                add(&mut quirks, peer, Quirk::PeerTimestampNonZero);
                olayout.push(TcpOption::TS);
                add(&mut quirks, size != 10, Quirk::OptBad);
            }
            _ => olayout.push(TcpOption::Unknown(kind)),
        }
        i += size;
    }
    Ok(Signature {
        version,
        ittl: TTL::Value(ttl),
        olen: olen as u8,
        mss,
        wsize: WindowSize::Value(be16(&segment[14..])),
        wscale,
        olayout,
        quirks,
        pclass: if segment.len() > offset {
            PayloadSize::NonZero
        } else {
            PayloadSize::Zero
        },
    })
}

/// A frame that mostly has what a signature needs, and now and then not.
fn frame(s: &mut Stream) -> Vec<u8> {
    let mut b = vec![0u8; 12];
    for _ in 0..s.below(3) {
        b.extend_from_slice(&[0x81, s.pick(0x00), s.byte(), s.byte()]);
    }
    let six = s.below(3) == 0;
    let options = s.below(11) as usize * 4;
    let payload = s.below(3) as usize * s.below(9) as usize;
    let segment = 20 + options + payload;
    if six {
        b.extend_from_slice(&[0x86, s.pick(0xdd)]);
        b.extend_from_slice(&[0x60 | s.pick(0) >> 4, s.pick(0), s.pick(0), s.pick(0)]);
        let announced = segment as i64 + s.pick(0) as i8 as i64;
        b.extend_from_slice(&(announced.max(0) as u16).to_be_bytes());
        b.extend_from_slice(&[s.pick(6), s.byte()]);
        b.extend_from_slice(&[0u8; 32]);
    } else {
        b.extend_from_slice(&[0x08, s.pick(0x00)]);
        let words = 5 + s.below(3) * s.below(6);
        b.extend_from_slice(&[0x40 | s.pick(words as u8) & 15, s.pick(0)]);
        let announced = words as i64 * 4 + segment as i64 + s.pick(0) as i8 as i64;
        b.extend_from_slice(&(announced.max(0) as u16).to_be_bytes());
        b.extend_from_slice(&[s.pick(0), s.byte()]);
        b.extend_from_slice(&[s.pick(0x40) & 0xe0 | s.pick(0) & 0x1f, s.pick(0)]);
        b.extend_from_slice(&[s.byte(), s.pick(6), 0, 0]);
        b.extend_from_slice(&[0u8; 8]);
        for _ in 0..(words as usize - 5) * 4 {
            b.push(s.byte());
        }
    }
    b.extend_from_slice(&[0, 80, 0, 80]);
    for _ in 0..8 {
        b.push(s.pick(0));
    }
    b.push((s.pick((5 + options / 4) as u8) << 4) | (s.pick(0) & 15));
    b.push(s.pick(0x02) | (s.pick(0) & 0xf8) | (s.pick(0) & 0x10));
    b.extend_from_slice(&[s.byte(), s.byte(), 0, 0, s.pick(0), s.pick(0)]);
    let mut left = options;
    while left > 0 {
        let kind = [0, 1, 1, 2, 3, 4, 5, 8, 8, 30][s.below(10) as usize];
        let usual = [1, 1, 4, 3, 2, 10, 0, 0, 10][kind.min(8) as usize];
        let size = s.pick(usual);
        b.push(kind);
        left -= 1;
        if kind > 1 && left > 0 {
            b.push(size);
            left -= 1;
            for _ in 2..size.min(left as u8 + 2) {
                b.push(s.pick(0));
                left -= 1;
            }
        }
    }
    for _ in 0..payload {
        b.push(s.byte());
    }
    let cut = s.below(6);
    if cut == 0 {
        let keep = s.below(b.len() as u64 + 1) as usize;
        b.truncate(keep);
    } else if cut == 1 {
        b.extend_from_slice(&[0, 0, 0, 0, 0, 0]);
    }
    b
}

fn sweep(seed: u64) -> (usize, usize) {
    let mut s = Stream(seed);
    let mut given = 0;
    let mut refused = 0;
    for _ in 0..20000 {
        let f = frame(&mut s);
        let got = Signature::extract(&f);
        assert_eq!(got, expected(&f), "{:02x?}", f);
        match got {
            Ok(_) => given += 1,
            Err(_) => refused += 1,
        }
    }
    (given, refused)
}

#[test]
fn extract_sweep() {
    let (given, refused) = sweep(0x9e37_79b9_7f4a_7c15);
    assert!(given > 2000, "{}", given);
    assert!(refused > 4000, "{}", refused);
}

#[test]
fn extract_sweep_again() {
    let (given, refused) = sweep(0x2545_f491_4f6c_dd1d);
    assert!(given > 2000, "{}", given);
    assert!(refused > 4000, "{}", refused);
}

#[test]
fn extract_any_bytes() {
    let mut s = Stream(0xd6e8_feb8_6659_fd93);
    for _ in 0..20000 {
        let len = s.below(100) as usize;
        let mut f: Vec<u8> = (0..len).map(|_| s.byte()).collect();
        if len > 14 && s.below(2) == 0 {
            f[12] = 0x08;
            f[13] = 0x00;
            if len > 24 && s.below(2) == 0 {
                f[14 + 9] = 6;
                f[14 + 6] &= 0x40;
                f[14 + 7] = 0;
            }
        }
        assert_eq!(Signature::extract(&f), expected(&f), "{:02x?}", f);
    }
}
