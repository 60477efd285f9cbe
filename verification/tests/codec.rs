use p0f::http::{header, Header as HttpHeader, Signature as HttpSignature, Version as HttpVersion};
use p0f::parse::ParseError;
use p0f::tcp::Quirk::{
    AckNumNonZero, AckNumZero, ExcessiveWindowScaling, FlowID, MustBeZero, NonZeroID, NonZeroURG,
    OptBad, OwnTimestampZero, PeerTimestampNonZero, SeqNumZero, TrailinigNonZero, ZeroID, DF, ECN,
    PUSH, URG,
};
use p0f::tcp::TcpOption::{Unknown, EOL, MSS, NOP, SACK, SOK, TS, WS};
use p0f::tcp::{
    IpVersion, PayloadSize, Quirk, Signature as TcpSignature, TcpOption, WindowSize, TTL,
};
use p0f::{Label, Type};

fn labels() -> Vec<(&'static str, Label)> {
    vec![
        (
            "s:!:Uncle John's Networked ls Utility:2.3.0.1",
            Label {
                ty: Type::Specified,
                class: None,
                name: "Uncle John's Networked ls Utility".to_owned(),
                flavor: Some("2.3.0.1".to_owned()),
            },
        ),
        (
            "s:unix:Linux:3.11 and newer",
            Label {
                ty: Type::Specified,
                class: Some("unix".to_owned()),
                name: "Linux".to_owned(),
                flavor: Some("3.11 and newer".to_owned()),
            },
        ),
        (
            "s:!:Chrome:11.x to 26.x",
            Label {
                ty: Type::Specified,
                class: None,
                name: "Chrome".to_owned(),
                flavor: Some("11.x to 26.x".to_owned()),
            },
        ),
        (
            "s:!:curl:",
            Label {
                ty: Type::Specified,
                class: None,
                name: "curl".to_owned(),
                flavor: None,
            },
        ),
    ]
}

fn tcp_signatures() -> Vec<(&'static str, TcpSignature)> {
    vec![
        (
            "*:64:0:*:mss*20,10:mss,sok,ts,nop,ws:df,id+:0",
            TcpSignature {
                version: IpVersion::Any,
                ittl: TTL::Value(64),
                olen: 0,
                mss: None,
                wsize: WindowSize::MSS(20),
                wscale: Some(10),
                olayout: vec![MSS, SOK, TS, NOP, WS],
                quirks: vec![DF, NonZeroID],
                pclass: PayloadSize::Zero,
            },
        ),
        (
            "*:64:0:*:16384,0:mss::0",
            TcpSignature {
                version: IpVersion::Any,
                ittl: TTL::Value(64),
                olen: 0,
                mss: None,
                wsize: WindowSize::Value(16384),
                wscale: Some(0),
                olayout: vec![MSS],
                quirks: vec![],
                pclass: PayloadSize::Zero,
            },
        ),
        (
            "4:128:0:1460:mtu*2,0:mss,nop,ws::0",
            TcpSignature {
                version: IpVersion::V4,
                ittl: TTL::Value(128),
                olen: 0,
                mss: Some(1460),
                wsize: WindowSize::MTU(2),
                wscale: Some(0),
                olayout: vec![MSS, NOP, WS],
                quirks: vec![],
                pclass: PayloadSize::Zero,
            },
        ),
        (
            "*:64-:0:265:%512,0:mss,sok,ts:ack+:0",
            TcpSignature {
                version: IpVersion::Any,
                ittl: TTL::Bad(64),
                olen: 0,
                mss: Some(265),
                wsize: WindowSize::Mod(512),
                wscale: Some(0),
                olayout: vec![MSS, SOK, TS],
                quirks: vec![AckNumNonZero],
                pclass: PayloadSize::Zero,
            },
        ),
    ]
}

fn ttls() -> Vec<(&'static str, TTL)> {
    vec![
        ("64", TTL::Value(64)),
        ("54+10", TTL::Distance(54, 10)),
        ("64-", TTL::Bad(64)),
        ("54+?", TTL::Guess(54)),
    ]
}

fn http_signatures() -> Vec<(&'static str, HttpSignature)> {
    vec![(
        "*:Host,User-Agent,Accept=[,*/*;q=],?Accept-Language,Accept-Encoding=[gzip,deflate],Accept-Charset=[utf-8;q=0.7,*;q=0.7],Keep-Alive=[300],Connection=[keep-alive]::Firefox/",
        HttpSignature {
            version: HttpVersion::Any,
            horder: vec![
                header("Host"),
                header("User-Agent"),
                header("Accept").with_value(",*/*;q="),
                header("Accept-Language").optional(),
                header("Accept-Encoding").with_value("gzip,deflate"),
                header("Accept-Charset").with_value("utf-8;q=0.7,*;q=0.7"),
                header("Keep-Alive").with_value("300"),
                header("Connection").with_value("keep-alive"),
            ],
            habsent: vec![],
            expsw: "Firefox/".to_owned(),
        },
    )]
}

fn http_headers() -> Vec<(&'static str, HttpHeader)> {
    vec![
        (
            "Host",
            HttpHeader {
                optional: false,
                name: "Host".to_owned(),
                value: None,
            },
        ),
        (
            "User-Agent",
            HttpHeader {
                optional: false,
                name: "User-Agent".to_owned(),
                value: None,
            },
        ),
        (
            "Accept=[,*/*;q=]",
            HttpHeader {
                optional: false,
                name: "Accept".to_owned(),
                value: Some(",*/*;q=".to_owned()),
            },
        ),
        (
            "?Accept-Language",
            HttpHeader {
                optional: true,
                name: "Accept-Language".to_owned(),
                value: None,
            },
        ),
    ]
}

#[test]
fn test_label() {
    for (s, l) in labels().iter() {
        assert_eq!(&s.parse::<Label>().unwrap(), l);
    }
}

#[test]
fn test_tcp_signature() {
    for (s, sig) in tcp_signatures().iter() {
        assert_eq!(&s.parse::<TcpSignature>().unwrap(), sig);
        assert_eq!(&sig.to_text(), s);
    }
}

#[test]
fn test_ttl() {
    for (s, ttl) in ttls().iter() {
        assert_eq!(&s.parse::<TTL>().unwrap(), ttl);
        assert_eq!(&ttl.to_text(), s);
    }
}

#[test]
fn test_http_signature() {
    for (s, sig) in http_signatures().iter() {
        assert_eq!(&s.parse::<HttpSignature>().unwrap(), sig);
        assert_eq!(&sig.to_text(), s);
    }
}

#[test]
fn test_http_header() {
    for (s, h) in http_headers().iter() {
        assert_eq!(&s.parse::<HttpHeader>().unwrap(), h);
        assert_eq!(&h.to_text(), s);
    }
}

#[test]
fn label_text_round_trip() {
    for (s, l) in labels().iter() {
        assert_eq!(&l.to_text(), s);
        assert_eq!(&l.to_text().parse::<Label>().unwrap(), l);
    }
    let generic = Label {
        ty: Type::Generic,
        class: Some("win".to_owned()),
        name: "Windows".to_owned(),
        flavor: Some("NT kernel 6.x: and later".to_owned()),
    };
    assert_eq!(generic.to_text(), "g:win:Windows:NT kernel 6.x: and later");
    assert_eq!(generic.to_text().parse::<Label>().unwrap(), generic);
    let empty_class = "s::n:f".parse::<Label>().unwrap();
    assert_eq!(empty_class.class, Some(String::new()));
    assert_eq!(empty_class.to_text(), "s::n:f");
}

#[test]
fn label_errors() {
    assert_eq!("".parse::<Label>(), Err(ParseError::Malformed { offset: 0 }));
    assert_eq!("x:!:a:b".parse::<Label>(), Err(ParseError::Malformed { offset: 0 }));
    assert_eq!("s!:a:b".parse::<Label>(), Err(ParseError::Malformed { offset: 1 }));
    assert_eq!("s:!x:a:b".parse::<Label>(), Err(ParseError::Malformed { offset: 3 }));
    assert_eq!("s:unix".parse::<Label>(), Err(ParseError::Malformed { offset: 2 }));
    assert_eq!("s:unix:Linux".parse::<Label>(), Err(ParseError::Malformed { offset: 7 }));
    assert_eq!("s".parse::<Type>(), Ok(Type::Specified));
    assert_eq!("g".parse::<Type>(), Ok(Type::Generic));
    assert_eq!("gs".parse::<Type>(), Err(ParseError::Trailing { offset: 1 }));
    assert_eq!("x".parse::<Type>(), Err(ParseError::Malformed { offset: 0 }));
    assert_eq!(Type::Specified.to_text(), "s");
    assert_eq!(Type::Generic.to_text(), "g");
}

#[test]
fn ttl_edges() {
    assert_eq!("0".parse::<TTL>(), Ok(TTL::Value(0)));
    assert_eq!("255".parse::<TTL>(), Ok(TTL::Value(255)));
    assert_eq!("064".parse::<TTL>(), Ok(TTL::Value(64)));
    assert_eq!("0000000000000000000000000064".parse::<TTL>(), Ok(TTL::Value(64)));
    assert_eq!("256".parse::<TTL>(), Err(ParseError::Malformed { offset: 0 }));
    assert_eq!(
        "99999999999999999999999999".parse::<TTL>(),
        Err(ParseError::Malformed { offset: 0 })
    );
    assert_eq!("".parse::<TTL>(), Err(ParseError::Malformed { offset: 0 }));
    assert_eq!("-".parse::<TTL>(), Err(ParseError::Malformed { offset: 0 }));
    assert_eq!("64+".parse::<TTL>(), Err(ParseError::Trailing { offset: 2 }));
    assert_eq!("54+300".parse::<TTL>(), Err(ParseError::Trailing { offset: 2 }));
    assert_eq!("64--".parse::<TTL>(), Err(ParseError::Trailing { offset: 3 }));
    assert_eq!("54+?1".parse::<TTL>(), Err(ParseError::Trailing { offset: 4 }));
    assert_eq!("54+10x".parse::<TTL>(), Err(ParseError::Trailing { offset: 5 }));
    assert_eq!("255+255".parse::<TTL>(), Ok(TTL::Distance(255, 255)));
    assert_eq!(TTL::Distance(255, 0).to_text(), "255+0");
    assert_eq!(TTL::Guess(0).to_text(), "0+?");
    assert_eq!(TTL::Bad(7).to_text(), "7-");
}

#[test]
fn window_size_forms() {
    let cases = vec![
        ("*", WindowSize::Any),
        ("mss*20", WindowSize::MSS(20)),
        ("mtu*2", WindowSize::MTU(2)),
        ("%512", WindowSize::Mod(512)),
        ("65535", WindowSize::Value(65535)),
        ("0", WindowSize::Value(0)),
        ("%65535", WindowSize::Mod(65535)),
        ("mss*255", WindowSize::MSS(255)),
    ];
    for (s, w) in cases.iter() {
        assert_eq!(&s.parse::<WindowSize>().unwrap(), w);
        assert_eq!(&w.to_text(), s);
    }
    assert_eq!("65536".parse::<WindowSize>(), Err(ParseError::Malformed { offset: 0 }));
    assert_eq!("mss*256".parse::<WindowSize>(), Err(ParseError::Malformed { offset: 0 }));
    assert_eq!("mss*".parse::<WindowSize>(), Err(ParseError::Malformed { offset: 0 }));
    assert_eq!("mss".parse::<WindowSize>(), Err(ParseError::Malformed { offset: 0 }));
    assert_eq!("%".parse::<WindowSize>(), Err(ParseError::Malformed { offset: 0 }));
    assert_eq!("**".parse::<WindowSize>(), Err(ParseError::Trailing { offset: 1 }));
}

#[test]
fn tcp_option_forms() {
    let cases = vec![
        ("eol+0", EOL(0)),
        ("eol+3", EOL(3)),
        ("nop", NOP),
        ("mss", MSS),
        ("ws", WS),
        ("sok", SOK),
        ("sack", SACK),
        ("ts", TS),
        ("?10", Unknown(10)),
        ("?255", Unknown(255)),
    ];
    for (s, o) in cases.iter() {
        assert_eq!(&s.parse::<TcpOption>().unwrap(), o);
        assert_eq!(&o.to_text(), s);
    }
    assert_eq!("eol".parse::<TcpOption>(), Err(ParseError::Malformed { offset: 0 }));
    assert_eq!("?256".parse::<TcpOption>(), Err(ParseError::Malformed { offset: 0 }));
    assert_eq!("wsx".parse::<TcpOption>(), Err(ParseError::Trailing { offset: 2 }));
    assert_eq!("".parse::<TcpOption>(), Err(ParseError::Malformed { offset: 0 }));
}

#[test]
fn quirk_forms() {
    let cases = vec![
        ("df", DF),
        ("id+", NonZeroID),
        ("id-", ZeroID),
        ("ecn", ECN),
        ("0+", MustBeZero),
        ("flow", FlowID),
        ("seq-", SeqNumZero),
        ("ack+", AckNumNonZero),
        ("ack-", AckNumZero),
        ("uptr+", NonZeroURG),
        ("urgf+", URG),
        ("pushf+", PUSH),
        ("ts1-", OwnTimestampZero),
        ("ts2+", PeerTimestampNonZero),
        ("opt+", TrailinigNonZero),
        ("exws", ExcessiveWindowScaling),
        ("bad", OptBad),
    ];
    for (s, q) in cases.iter() {
        assert_eq!(&s.parse::<Quirk>().unwrap(), q);
        assert_eq!(&q.to_text(), s);
    }
    assert_eq!("id".parse::<Quirk>(), Err(ParseError::Malformed { offset: 0 }));
    assert_eq!("dfx".parse::<Quirk>(), Err(ParseError::Trailing { offset: 2 }));
}

#[test]
fn small_enums() {
    for (s, v) in [("4", IpVersion::V4), ("6", IpVersion::V6), ("*", IpVersion::Any)].iter() {
        assert_eq!(&s.parse::<IpVersion>().unwrap(), v);
        assert_eq!(&v.to_text(), s);
    }
    assert_eq!("5".parse::<IpVersion>(), Err(ParseError::Malformed { offset: 0 }));
    assert_eq!("46".parse::<IpVersion>(), Err(ParseError::Trailing { offset: 1 }));
    for (s, v) in [
        ("0", PayloadSize::Zero),
        ("+", PayloadSize::NonZero),
        ("*", PayloadSize::Any),
    ]
    .iter()
    {
        assert_eq!(&s.parse::<PayloadSize>().unwrap(), v);
        assert_eq!(&v.to_text(), s);
    }
    assert_eq!("1".parse::<PayloadSize>(), Err(ParseError::Malformed { offset: 0 }));
    assert_eq!(HttpVersion::V10.to_text(), "0");
    assert_eq!(HttpVersion::V11.to_text(), "1");
    assert_eq!(HttpVersion::Any.to_text(), "*");
}

#[test]
fn tcp_signature_errors() {
    let bad = |s: &str| s.parse::<TcpSignature>().unwrap_err();
    assert_eq!(bad(""), ParseError::Malformed { offset: 0 });
    assert_eq!(bad("5:64:0:*:*,*:mss::0"), ParseError::Malformed { offset: 0 });
    assert_eq!(bad("4;64:0:*:*,*:mss::0"), ParseError::Malformed { offset: 1 });
    assert_eq!(bad("4:x:0:*:*,*:mss::0"), ParseError::Malformed { offset: 2 });
    assert_eq!(bad("4:64:256:*:*,*:mss::0"), ParseError::Malformed { offset: 5 });
    assert_eq!(bad("4:64:0:65536:*,*:mss::0"), ParseError::Malformed { offset: 7 });
    assert_eq!(bad("4:64:0:*:*:*:mss::0"), ParseError::Malformed { offset: 10 });
    assert_eq!(bad("4:64:0:*:*,256:mss::0"), ParseError::Malformed { offset: 11 });
    assert_eq!(bad("4:64:0:*:*,*::df:0"), ParseError::Malformed { offset: 13 });
    assert_eq!(bad("4:64:0:*:*,*:mss,:df:0"), ParseError::Malformed { offset: 16 });
    assert_eq!(bad("4:64:0:*:*,*:mss:df,:0"), ParseError::Malformed { offset: 19 });
    assert_eq!(bad("4:64:0:*:*,*:mss:what:0"), ParseError::Malformed { offset: 17 });
    assert_eq!(bad("4:64:0:*:*,*:mss:df:"), ParseError::Malformed { offset: 20 });
    assert_eq!(bad("4:64:0:*:*,*:mss:df:0 "), ParseError::Trailing { offset: 21 });
    assert_eq!(bad("4:64+:0:*:*,*:mss:df:0"), ParseError::Malformed { offset: 4 });
}

#[test]
fn tcp_signature_any_fields() {
    let sig = "6:54+?:40:*:*,*:eol+2,?33,sack:ecn,flow,exws,bad:+"
        .parse::<TcpSignature>()
        .unwrap();
    assert_eq!(
        sig,
        TcpSignature {
            version: IpVersion::V6,
            ittl: TTL::Guess(54),
            olen: 40,
            mss: None,
            wsize: WindowSize::Any,
            wscale: None,
            olayout: vec![EOL(2), Unknown(33), SACK],
            quirks: vec![ECN, FlowID, ExcessiveWindowScaling, OptBad],
            pclass: PayloadSize::NonZero,
        }
    );
    assert_eq!(
        sig.to_text(),
        "6:54+?:40:*:*,*:eol+2,?33,sack:ecn,flow,exws,bad:+"
    );
    let any = "*:1+2:0:0:0,0:nop::*".parse::<TcpSignature>().unwrap();
    assert_eq!(any.ittl, TTL::Distance(1, 2));
    assert_eq!(any.mss, Some(0));
    assert_eq!(any.pclass, PayloadSize::Any);
    assert_eq!(any.to_text(), "*:1+2:0:0:0,0:nop::*");
}

#[test]
fn http_header_edges() {
    let parse = |s: &str| s.parse::<HttpHeader>();
    assert_eq!(
        parse("").unwrap(),
        HttpHeader {
            optional: false,
            name: String::new(),
            value: None
        }
    );
    assert_eq!(
        parse("?").unwrap(),
        HttpHeader {
            optional: true,
            name: String::new(),
            value: None
        }
    );
    assert_eq!(parse("Via=[]").unwrap(), header("Via").with_value(""));
    assert_eq!(parse("=[x]").unwrap(), header("").with_value("x"));
    assert_eq!(
        parse("?X-Forwarded-For=[a=[b,c]").unwrap(),
        header("X-Forwarded-For").with_value("a=[b,c").optional()
    );
    assert_eq!(parse("Host=[x"), Err(ParseError::Trailing { offset: 4 }));
    assert_eq!(parse("Host:"), Err(ParseError::Trailing { offset: 4 }));
    assert_eq!(parse("Host=[x]y"), Err(ParseError::Trailing { offset: 8 }));
    assert_eq!(parse("H\u{e9}"), Err(ParseError::Trailing { offset: 1 }));
    assert_eq!(header("A").with_value("b").optional().to_text(), "?A=[b]");
    assert_eq!(header("Via").with_value("").to_text(), "Via=[]");
}

#[test]
fn http_signature_edges() {
    let sig = "1:Host,?Via:Accept,User-Agent=[x]:Apache: the rest"
        .parse::<HttpSignature>()
        .unwrap();
    assert_eq!(
        sig,
        HttpSignature {
            version: HttpVersion::V11,
            horder: vec![header("Host"), header("Via").optional()],
            habsent: vec![header("Accept"), header("User-Agent").with_value("x")],
            expsw: "Apache: the rest".to_owned(),
        }
    );
    assert_eq!(
        sig.to_text(),
        "1:Host,?Via:Accept,User-Agent=[x]:Apache: the rest"
    );
    let plain = "0:Host::".parse::<HttpSignature>().unwrap();
    assert_eq!(plain.version, HttpVersion::V10);
    assert_eq!(plain.habsent, vec![]);
    assert_eq!(plain.expsw, "");
    assert_eq!(plain.to_text(), "0:Host::");
    let bad = |s: &str| s.parse::<HttpSignature>().unwrap_err();
    assert_eq!(bad(""), ParseError::Malformed { offset: 0 });
    assert_eq!(bad("2:Host::"), ParseError::Malformed { offset: 0 });
    assert_eq!(bad("1Host::"), ParseError::Malformed { offset: 1 });
    assert_eq!(bad("1:::"), ParseError::Malformed { offset: 2 });
    assert_eq!(bad("1:Host"), ParseError::Malformed { offset: 6 });
    assert_eq!(bad("1:Host,,Via::"), ParseError::Malformed { offset: 6 });
    assert_eq!(bad("1:Host:Via"), ParseError::Malformed { offset: 10 });
    assert_eq!(bad("1:Host:Via,:x"), ParseError::Malformed { offset: 10 });
}
