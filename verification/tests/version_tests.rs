use uri_parser::version::{InvalidHttpVersion, Version};

#[test]
fn version_parsing() {
    assert_eq!(Version::parse(b"HTTP/0.9"), Ok(Version::Http0_9));
    assert_eq!(Version::parse(b"HTTP/1.0"), Ok(Version::Http1_0));
    assert_eq!(Version::parse(b"HTTP/1.1"), Ok(Version::Http1_1));
    assert_eq!(Version::parse(b"HTTP/2"), Ok(Version::Http2));
    assert_eq!(Version::parse(b"HTTP/3"), Ok(Version::Http3));

    // Case sensitive!
    assert_eq!(Version::parse(b"http/0.9"), Err(InvalidHttpVersion));

    assert_eq!(Version::parse(b""), Err(InvalidHttpVersion));
    assert_eq!(Version::parse(b"blablabla"), Err(InvalidHttpVersion));
}

#[test]
fn test_http_version_parsing() {
    assert_eq!(Version::parse(b"HTTP/0.9"), Ok(Version::Http0_9));
    assert_eq!(Version::parse(b"HTTP/1.0"), Ok(Version::Http1_0));
    assert_eq!(Version::parse(b"HTTP/1.1"), Ok(Version::Http1_1));
    assert_eq!(Version::parse(b"HTTP/2"), Ok(Version::Http2));
    assert_eq!(Version::parse(b"HTTP/3"), Ok(Version::Http3));

    // Case sensitive!
    assert_eq!(Version::parse(b"http/0.9"), Err(InvalidHttpVersion));

    assert_eq!(Version::parse(b""), Err(InvalidHttpVersion));
    assert_eq!(Version::parse(b"blablabla"), Err(InvalidHttpVersion));
}

#[test]
fn version_near_misses() {
    assert_eq!(Version::parse(b"HTTP/1.2"), Err(InvalidHttpVersion));
    assert_eq!(Version::parse(b"HTTP/"), Err(InvalidHttpVersion));
    assert_eq!(Version::parse(b"HTTP/2.0"), Err(InvalidHttpVersion));
    assert_eq!(Version::parse(b"HTTP"), Err(InvalidHttpVersion));
}
