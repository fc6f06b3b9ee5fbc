use uri_parser::authority::{Authority, AuthorityParseError, Host, HostParseError, Port,
    PortParseError};

#[test]
fn authority_parsing() {
    assert_eq!(
        Authority::parse(b"www.example.com"),
        Ok(Authority::new().host(b"www.example.com"))
    );
    assert_eq!(
        Authority::parse(b"www.example.com:443"),
        Ok(Authority::new().host(b"www.example.com").port(443))
    );
    assert_eq!(
        Authority::parse(b"www.example-2.com:80"),
        Ok(Authority::new().host(b"www.example-2.com").port(80))
    );
    // Case insensitive
    assert_eq!(
        Authority::parse(b"WWW.EXAMPLE.COM"),
        Ok(Authority::new().host(b"www.example.com"))
    );

    // Too many ':'-separators (can only have one port number)
    assert_eq!(
        Authority::parse(b"www.example.com:80:443"),
        Err(AuthorityParseError)
    );
    // Invalid character
    assert_eq!(
        Authority::parse(b"*www.example.com"),
        Err(AuthorityParseError)
    );
    // Whitespace disallowed
    assert_eq!(
        Authority::parse(b" www.example.com"),
        Err(AuthorityParseError)
    );
}

#[test]
fn formatting() {
    assert_eq!(
        Authority::parse(b"www.example.com").unwrap().to_bytes(),
        b"www.example.com".to_vec()
    );
    assert_eq!(
        Authority::parse(b"www.example.com:80").unwrap().to_bytes(),
        b"www.example.com:80".to_vec()
    );
    assert_eq!(
        Authority::parse(b"www.example-2.com:443").unwrap().to_bytes(),
        b"www.example-2.com:443".to_vec()
    );
    // Case insensitive
    assert_eq!(
        Authority::parse(b"WWW.EXAMPLE.COM").unwrap().to_bytes(),
        b"www.example.com".to_vec()
    );
}

#[test]
fn authority_roundtrip_without_port() {
    let parsed = Authority::parse(b"Sub.Example-Host.net").unwrap();
    let serialized = parsed.to_bytes();
    assert_eq!(serialized, b"sub.example-host.net".to_vec());
    let reparsed = Authority::parse(&serialized).unwrap();
    assert_eq!(reparsed, parsed);
}

#[test]
fn lenient_trailing_port() {
    // A bad port after a single ':' keeps the host and drops the port.
    assert_eq!(
        Authority::parse(b"www.example.com:"),
        Ok(Authority::new().host(b"www.example.com"))
    );
    assert_eq!(
        Authority::parse(b"www.example.com:80x"),
        Ok(Authority::new().host(b"www.example.com"))
    );
    // A bad host is a hard failure even with a good port.
    assert_eq!(Authority::parse(b"-bad-:80"), Err(AuthorityParseError));
}

#[test]
fn port_bounds() {
    assert_eq!(Port::parse(b"0"), Ok(Port { inner: 0 }));
    assert_eq!(Port::parse(b"65535"), Ok(Port { inner: 65535 }));
    assert_eq!(Port::parse(b"0080"), Ok(Port { inner: 80 }));
    assert_eq!(Port::parse(b"65536"), Err(PortParseError));
    assert_eq!(Port::parse(b"184467440737095516150"), Err(PortParseError));
    assert_eq!(Port::parse(b""), Err(PortParseError));
    assert_eq!(Port::parse(b"+80"), Err(PortParseError));
    assert_eq!(Port::parse(b"8a"), Err(PortParseError));
}

#[test]
fn host_acceptance() {
    // Accepted: valid class, alphanumeric start, not all digits,
    // clean boundaries; stored lower-cased.
    assert_eq!(
        Host::parse(b"Example-2.Com"),
        Ok(Host { inner: b"example-2.com".to_vec() })
    );
    assert_eq!(Host::parse(b"9lives.cat"), Ok(Host { inner: b"9lives.cat".to_vec() }));
    // Rejected, one clause at a time.
    assert_eq!(Host::parse(b""), Err(HostParseError));
    assert_eq!(Host::parse(b"ex_ample.com"), Err(HostParseError));
    assert_eq!(Host::parse(b"-example.com"), Err(HostParseError));
    assert_eq!(Host::parse(b"424242"), Err(HostParseError));
    assert_eq!(Host::parse(b"a..b"), Err(HostParseError));
    assert_eq!(Host::parse(b"a-.b"), Err(HostParseError));
    assert_eq!(Host::parse(b"a.-b"), Err(HostParseError));
    assert_eq!(Host::parse(b"example-"), Err(HostParseError));
    assert_eq!(Host::parse(b"example."), Err(HostParseError));
}
