//! The signature of a TCP SYN or SYN+ACK segment.

use vstd::prelude::*;

verus! {

/// What a SYN or SYN+ACK tells of the stack that sent it.
#[derive(Clone, Debug, PartialEq)]
pub struct Signature {
    pub version: IpVersion,
    /// initial TTL used by the OS.
    pub ittl: TTL,
    /// length of IPv4 options or IPv6 extension headers.
    pub olen: u8,
    /// maximum segment size, if specified in TCP options.
    pub mss: Option<u16>,
    /// window size.
    pub wsize: WindowSize,
    /// window scaling factor, if specified in TCP options.
    pub wscale: Option<u8>,
    /// layout and ordering of TCP options, if any.
    pub olayout: Vec<TcpOption>,
    /// properties and quirks observed in IP or TCP headers.
    pub quirks: Vec<Quirk>,
    /// payload size classification
    pub pclass: PayloadSize,
}

/// A signature as a mathematical value.
pub struct SignatureView {
    pub version: IpVersion,
    pub ittl: TTL,
    pub olen: u8,
    pub mss: Option<u16>,
    pub wsize: WindowSize,
    pub wscale: Option<u8>,
    pub olayout: Seq<TcpOption>,
    pub quirks: Seq<Quirk>,
    pub pclass: PayloadSize,
}

impl View for Signature {
    type V = SignatureView;

    open spec fn view(&self) -> SignatureView {
        SignatureView {
            version: self.version,
            ittl: self.ittl,
            olen: self.olen,
            mss: self.mss,
            wsize: self.wsize,
            wscale: self.wscale,
            olayout: self.olayout@,
            quirks: self.quirks@,
            pclass: self.pclass,
        }
    }
}

impl DeepView for Signature {
    type V = SignatureView;

    open spec fn deep_view(&self) -> SignatureView {
        self.view()
    }
}

#[derive(Clone, Copy, Debug, PartialEq, Eq, Structural)]
pub enum IpVersion {
    V4,
    V6,
    Any,
}

/// The initial TTL of a packet.
#[derive(Clone, Copy, Debug, PartialEq, Eq, Structural)]
pub enum TTL {
    /// the TTL as set by the sender
    Value(u8),
    /// the TTL seen, and the number of hops taken to be behind it
    Distance(u8, u8),
    /// an initial TTL that was guessed
    Guess(u8),
    /// a TTL that cannot be right
    Bad(u8),
}

#[derive(Clone, Copy, Debug, PartialEq, Eq, Structural)]
pub enum WindowSize {
    /// a multiple of the MSS
    MSS(u8),
    /// a multiple of the MTU
    MTU(u8),
    /// the window size itself
    Value(u16),
    /// a multiple of this number
    Mod(u16),
    Any,
}

#[derive(Clone, Copy, Debug, PartialEq, Eq, Structural)]
pub enum TcpOption {
    /// eol+n  - explicit end of options, followed by n bytes of padding
    EOL(u8),
    /// nop    - no-op option
    NOP,
    /// mss    - maximum segment size
    MSS,
    /// ws     - window scaling
    WS,
    /// sok    - selective ACK permitted
    SOK,
    /// sack   - selective ACK (should not be seen)
    SACK,
    /// ts     - timestamp
    TS,
    /// ?n     - unknown option ID n
    Unknown(u8),
}

#[derive(Clone, Copy, Debug, PartialEq, Eq, Structural)]
pub enum Quirk {
    /// df     - "don't fragment" set (probably PMTUD); ignored for IPv6
    DF,
    /// id+    - DF set but IPID non-zero; ignored for IPv6
    NonZeroID,
    /// id-    - DF not set but IPID is zero; ignored for IPv6
    ZeroID,
    /// ecn    - explicit congestion notification support
    ECN,
    /// 0+     - "must be zero" field not zero; ignored for IPv6
    MustBeZero,
    /// flow   - non-zero IPv6 flow ID; ignored for IPv4
    FlowID,
    /// seq-   - sequence number is zero
    SeqNumZero,
    /// ack+   - ACK number is non-zero, but ACK flag not set
    AckNumNonZero,
    /// ack-   - ACK number is zero, but ACK flag set
    AckNumZero,
    /// uptr+  - URG pointer is non-zero, but URG flag not set
    NonZeroURG,
    /// urgf+  - URG flag used
    URG,
    /// pushf+ - PUSH flag used
    PUSH,
    /// ts1-   - own timestamp specified as zero
    OwnTimestampZero,
    /// ts2+   - non-zero peer timestamp on initial SYN
    PeerTimestampNonZero,
    /// opt+   - trailing non-zero data in options segment
    TrailinigNonZero,
    /// exws   - excessive window scaling factor (> 14)
    ExcessiveWindowScaling,
    /// bad    - malformed TCP options
    OptBad,
}

#[derive(Clone, Copy, Debug, PartialEq, Eq, Structural)]
pub enum PayloadSize {
    Zero,
    NonZero,
    Any,
}

} // verus!
