use uri_parser::query::{Query, QueryParseError};

// Builds a query from field-value pairs, writing "None" for a bare
// field. Mirrors how the parser records tokens; for test setup only.
fn create_query(field_value_pairs: &[(&str, &str)]) -> Query {
    let mut query = Query::new();
    for &(f, v) in field_value_pairs {
        let value: Option<&[u8]> = if v == "None" { None } else { Some(v.as_bytes()) };
        query.insert(f.as_bytes(), value);
    }
    query
}

#[test]
fn query_parsing() {
    assert_eq!(
        Query::parse(b"name=John"),
        Ok(create_query(&[("name", "John")]))
    );
    assert_eq!(
        Query::parse(b"name=John&age=30&city=Stockholm"),
        Ok(create_query(&[
            ("name", "John"),
            ("age", "30"),
            ("city", "Stockholm")
        ]))
    );
    assert_eq!(
        Query::parse(b"file=report-v1.2~final"),
        Ok(create_query(&[("file", "report-v1.2~final")]))
    );
    assert_eq!(
        Query::parse(b"query=hello%20world"),
        Ok(create_query(&[("query", "hello%20world")]))
    );
    assert_eq!(
        Query::parse(b"search=C%2B%2B%20programming"),
        Ok(create_query(&[("search", "C%2B%2B%20programming")]))
    );
    assert_eq!(Query::parse(b"key="), Ok(create_query(&[("key", "")])));
    assert_eq!(
        Query::parse(b"name=John&age="),
        Ok(create_query(&[("name", "John"), ("age", "")]))
    );
    assert_eq!(
        Query::parse(b"name=John&age"),
        Ok(create_query(&[("name", "John"), ("age", "None")]))
    );
    // Empty query (valid)
    assert_eq!(Query::parse(b""), Ok(Query::new()));

    assert_eq!(
        Query::parse(b"q=apples&oranges&category=fruit"),
        Ok(create_query(&[
            ("q", "apples"),
            ("oranges", "None"),
            ("category", "fruit")
        ]))
    );
    // Duplicate query keys without proper handling
    assert_eq!(
        Query::parse(b"q=apple&q=banana"),
        Ok(create_query(&[("q", "apple"), ("q", "banana")]))
    );

    // Unencoded special characters (space, !)
    assert_eq!(
        Query::parse(b"q=hello world!"),
        Err(QueryParseError::InvalidCharacter)
    );
    // Missing key before equals sign
    assert_eq!(Query::parse(b"=value"), Err(QueryParseError::EmptyField));
    // Malformed percent encoding (%2G is not valid)
    assert_eq!(
        Query::parse(b"q=hello%2Gworld"),
        Err(QueryParseError::BadPercentEncoding)
    );
    // Using reserved characters in query parameter names
    assert_eq!(
        Query::parse(b"hello@=world"),
        Err(QueryParseError::InvalidCharacter)
    );
    assert_eq!(
        Query::parse(b"hello=this=world"),
        Err(QueryParseError::BadFieldValue)
    );
}

#[test]
fn empty_token_in_query() {
    // An empty token between separators is rejected as empty input.
    assert_eq!(Query::parse(b"a=1&&b=2"), Err(QueryParseError::EmptyInput));
    assert_eq!(Query::parse(b"&a=1"), Err(QueryParseError::EmptyInput));
}

#[test]
fn query_lookup() {
    let q = Query::parse(b"q=apple&q=banana&flag&key=").unwrap();
    assert_eq!(
        q.get(b"q"),
        Some(&vec![b"apple".to_vec(), b"banana".to_vec()])
    );
    assert_eq!(q.get(b"flag"), Some(&vec![]));
    assert_eq!(q.get(b"key"), Some(&vec![b"".to_vec()]));
    assert_eq!(q.get(b"missing"), None);
    assert_eq!(q.find(b"q"), Some(0));
    assert_eq!(q.find(b"flag"), Some(1));
    assert_eq!(q.find(b"missing"), None);
}

#[test]
fn query_mutation() {
    let mut q = Query::parse(b"q=apple").unwrap();
    if let Some(vals) = q.get_mut(b"q") {
        vals.push(b"pear".to_vec());
    }
    assert_eq!(q.get(b"q"), Some(&vec![b"apple".to_vec(), b"pear".to_vec()]));
    assert_eq!(q.get_mut(b"missing"), None);
}

#[test]
fn insert_accumulates_in_order() {
    let mut q = Query::new();
    q.insert(b"b", Some(b"1" as &[u8]));
    q.insert(b"a", Some(b"2" as &[u8]));
    q.insert(b"b", Some(b"3" as &[u8]));
    q.insert(b"a", None);
    assert_eq!(q.find(b"b"), Some(0));
    assert_eq!(q.find(b"a"), Some(1));
    assert_eq!(q.get(b"b"), Some(&vec![b"1".to_vec(), b"3".to_vec()]));
    assert_eq!(q.get(b"a"), Some(&vec![b"2".to_vec()]));
}
