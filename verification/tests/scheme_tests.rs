use uri_parser::scheme::{CommonSchemes, Repr, Scheme, SchemeParseError};

fn http() -> Scheme {
    Scheme { inner: Repr::Standard(CommonSchemes::Http) }
}

fn https() -> Scheme {
    Scheme { inner: Repr::Standard(CommonSchemes::Https) }
}

fn empty() -> Scheme {
    Scheme { inner: Repr::Empty }
}

#[test]
fn scheme_parsing() {
    assert_eq!(Scheme::parse(b"http"), Ok(http()));
    assert_eq!(Scheme::parse(b"Http"), Ok(http()));
    assert_eq!(Scheme::parse(b"https"), Ok(https()));
    assert_eq!(Scheme::parse(b"Https"), Ok(https()));
    assert_eq!(Scheme::parse(b""), Ok(empty()));
    assert_eq!(
        Scheme::parse(b"blablabla"),
        Ok(Scheme { inner: Repr::Custom(b"blablabla".to_vec()) })
    );
    // case insensitive
    assert_eq!(
        Scheme::parse(b"BLABLABLA"),
        Ok(Scheme { inner: Repr::Custom(b"blablabla".to_vec()) })
    );

    // whitespace not allowed
    assert_eq!(Scheme::parse(b" http"), Err(SchemeParseError));
    // invalid character
    assert_eq!(Scheme::parse(b"http@"), Err(SchemeParseError));
    // does not start with an alphabetic character
    assert_eq!(Scheme::parse(b"1http"), Err(SchemeParseError));
}

#[test]
fn scheme_roundtrip() {
    // Serializing an accepted scheme and parsing it back yields the
    // same value.
    for input in [
        b"http" as &[u8],
        b"HTTPS",
        b"",
        b"Fancy-Scheme+1.0",
        b"blablabla",
    ] {
        let parsed = Scheme::parse(input).unwrap();
        let serialized = parsed.to_bytes();
        let reparsed = Scheme::parse(&serialized).unwrap();
        assert_eq!(reparsed, parsed);
    }
}

#[test]
fn scheme_serialization() {
    assert_eq!(Scheme::parse(b"HTTP").unwrap().to_bytes(), b"http".to_vec());
    assert_eq!(Scheme::parse(b"https").unwrap().to_bytes(), b"https".to_vec());
    assert_eq!(Scheme::parse(b"").unwrap().to_bytes(), b"".to_vec());
    assert_eq!(
        Scheme::parse(b"Git+SSH").unwrap().to_bytes(),
        b"git+ssh".to_vec()
    );
}

#[test]
fn custom_scheme_validation() {
    // The custom-token validator keeps the token verbatim and does no
    // keyword lookup or case folding.
    assert!(matches!(
        Scheme::parse_custom_scheme(b"HTTP"),
        Ok(Scheme { inner: Repr::Custom(_) })
    ));
    assert_eq!(Scheme::parse_custom_scheme(b""), Ok(empty()));
    assert_eq!(Scheme::parse_custom_scheme(b"9ftp"), Err(SchemeParseError));
    assert_eq!(Scheme::parse_custom_scheme(b"ft p"), Err(SchemeParseError));
    assert_eq!(Scheme::parse_custom_scheme(b"ftp+v2"), Ok(Scheme {
        inner: Repr::Custom(b"ftp+v2".to_vec())
    }));
}
