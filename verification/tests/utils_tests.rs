use uri_parser::utils::{contains_subslice, is_percent_encoding, is_properly_percent_encoded};

#[test]
fn percent_encoding_pairs() {
    assert!(is_percent_encoding([b'2', b'B']));
    assert!(is_percent_encoding([b'f', b'F']));
    assert!(is_percent_encoding([b'0', b'9']));
    assert!(!is_percent_encoding([b'2', b'G']));
    assert!(!is_percent_encoding([b'g', b'0']));
    assert!(!is_percent_encoding([b' ', b'1']));
}

#[test]
fn properly_percent_encoded() {
    assert!(is_properly_percent_encoded(b""));
    assert!(is_properly_percent_encoded(b"no-escapes-at-all"));
    assert!(is_properly_percent_encoded(b"a%20b"));
    assert!(is_properly_percent_encoded(b"%41%42%43"));
    // Both digits must exist within the slice.
    assert!(!is_properly_percent_encoded(b"abc%"));
    assert!(!is_properly_percent_encoded(b"abc%4"));
    assert!(is_properly_percent_encoded(b"abc%41"));
    // And both must be hex digits.
    assert!(!is_properly_percent_encoded(b"a%2Gb"));
    assert!(!is_properly_percent_encoded(b"a%%41b"));
}

#[test]
fn subslice_search() {
    assert!(contains_subslice(b"hello world", b"lo wo"));
    assert!(contains_subslice(b"hello", b"hello"));
    assert!(contains_subslice(b"aaab", b"aab"));
    assert!(!contains_subslice(b"hello", b"world"));
    // An empty needle is defined as not contained.
    assert!(!contains_subslice(b"hello", b""));
    // So is one longer than the haystack.
    assert!(!contains_subslice(b"hi", b"hello"));
}
