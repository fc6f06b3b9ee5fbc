use uri_parser::method::{InvalidHttpMethod, Method};

#[test]
fn method_parsing() {
    assert_eq!(Method::parse(b"GET"), Ok(Method::Get));
    assert_eq!(Method::parse(b"HEAD"), Ok(Method::Head));
    assert_eq!(Method::parse(b"POST"), Ok(Method::Post));
    assert_eq!(Method::parse(b"PUT"), Ok(Method::Put));
    assert_eq!(Method::parse(b"DELETE"), Ok(Method::Delete));
    assert_eq!(Method::parse(b"CONNECT"), Ok(Method::Connect));
    assert_eq!(Method::parse(b"OPTIONS"), Ok(Method::Options));
    assert_eq!(Method::parse(b"TRACE"), Ok(Method::Trace));
    assert_eq!(Method::parse(b"PATCH"), Ok(Method::Patch));

    // Case sensitive
    assert_eq!(Method::parse(b"get"), Err(InvalidHttpMethod));

    // Empty string is invalid
    assert_eq!(Method::parse(b""), Err(InvalidHttpMethod));
}

#[test]
fn method_near_misses() {
    assert_eq!(Method::parse(b"GETS"), Err(InvalidHttpMethod));
    assert_eq!(Method::parse(b"GE"), Err(InvalidHttpMethod));
    assert_eq!(Method::parse(b"PATCHY"), Err(InvalidHttpMethod));
    assert_eq!(Method::parse(b"connect"), Err(InvalidHttpMethod));
}
