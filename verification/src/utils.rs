//! Byte classes of the URI grammar and the predicates shared by the
//! parsers: percent-encoding validity and literal subslice search.

use vstd::prelude::*;

verus! {

/// ASCII code of `0`.
pub const B_0: u8 = 48;

/// ASCII code of `9`.
pub const B_9: u8 = 57;

/// ASCII code of `A`.
pub const B_UPPER_A: u8 = 65;

/// ASCII code of `F`.
pub const B_UPPER_F: u8 = 70;

/// ASCII code of `Z`.
pub const B_UPPER_Z: u8 = 90;

/// ASCII code of `a`.
pub const B_LOWER_A: u8 = 97;

/// ASCII code of `f`.
pub const B_LOWER_F: u8 = 102;

/// ASCII code of `z`.
pub const B_LOWER_Z: u8 = 122;

/// ASCII code of `%`.
pub const B_PERCENT: u8 = 37;

/// ASCII code of `*`.
pub const B_STAR: u8 = 42;

/// ASCII code of `+`.
pub const B_PLUS: u8 = 43;

/// ASCII code of `-`.
pub const B_HYPHEN: u8 = 45;

/// ASCII code of `.`.
pub const B_DOT: u8 = 46;

/// ASCII code of `/`.
pub const B_SLASH: u8 = 47;

/// ASCII code of `:`.
pub const B_COLON: u8 = 58;

/// ASCII code of `=`.
pub const B_EQUALS: u8 = 61;

/// ASCII code of `&`.
pub const B_AMP: u8 = 38;

/// ASCII code of `_`.
pub const B_UNDERSCORE: u8 = 95;

/// ASCII code of `~`.
pub const B_TILDE: u8 = 126;


/// ASCII decimal digit.
pub open spec fn is_digit_byte(b: u8) -> bool {
    B_0 <= b <= B_9
}

/// ASCII upper-case letter.
pub open spec fn is_upper_byte(b: u8) -> bool {
    B_UPPER_A <= b <= B_UPPER_Z
}

/// ASCII lower-case letter.
pub open spec fn is_lower_byte(b: u8) -> bool {
    B_LOWER_A <= b <= B_LOWER_Z
}

/// ASCII letter.
pub open spec fn is_alpha_byte(b: u8) -> bool {
    is_upper_byte(b) || is_lower_byte(b)
}

/// ASCII letter or digit.
pub open spec fn is_alnum_byte(b: u8) -> bool {
    is_alpha_byte(b) || is_digit_byte(b)
}

/// ASCII hexadecimal digit, either case.
pub open spec fn is_hex_byte(b: u8) -> bool {
    is_digit_byte(b) || (B_LOWER_A <= b <= B_LOWER_F) || (B_UPPER_A <= b <= B_UPPER_F)
}

/// Bytes allowed in a scheme token: letters, digits, `+`, `-`, `.`.
pub open spec fn is_scheme_byte(b: u8) -> bool {
    is_alnum_byte(b) || b == B_PLUS || b == B_HYPHEN || b == B_DOT
}

/// Bytes allowed in a hostname: letters, digits, `-`, `.`.
pub open spec fn is_host_byte(b: u8) -> bool {
    is_alnum_byte(b) || b == B_HYPHEN || b == B_DOT
}

/// Bytes allowed in a path: letters, digits, `%`, `*`, `-`, `.`, `/`, `_`, `~`.
pub open spec fn is_path_byte(b: u8) -> bool {
    is_alnum_byte(b) || b == B_PERCENT || b == B_STAR || b == B_HYPHEN || b == B_DOT || b == B_SLASH || b == B_UNDERSCORE
        || b == B_TILDE
}

/// Bytes allowed in a query field or value: letters, digits, `%`, `-`, `.`, `_`, `~`.
pub open spec fn is_query_byte(b: u8) -> bool {
    is_alnum_byte(b) || b == B_PERCENT || b == B_HYPHEN || b == B_DOT || b == B_UNDERSCORE || b == B_TILDE
}

/// Every byte of the sequence is a scheme byte.
pub open spec fn all_scheme_bytes(s: Seq<u8>) -> bool {
    forall|i: int| 0 <= i < s.len() ==> is_scheme_byte(#[trigger] s[i])
}

/// Every byte of the sequence is a hostname byte.
pub open spec fn all_host_bytes(s: Seq<u8>) -> bool {
    forall|i: int| 0 <= i < s.len() ==> is_host_byte(#[trigger] s[i])
}

/// Every byte of the sequence is a path byte.
pub open spec fn all_path_bytes(s: Seq<u8>) -> bool {
    forall|i: int| 0 <= i < s.len() ==> is_path_byte(#[trigger] s[i])
}

/// Every byte of the sequence is a query byte.
pub open spec fn all_query_bytes(s: Seq<u8>) -> bool {
    forall|i: int| 0 <= i < s.len() ==> is_query_byte(#[trigger] s[i])
}

/// The lower-case image of one byte: `A`..`Z` fold to `a`..`z`,
/// every other byte is kept.
pub open spec fn lower_byte(b: u8) -> u8 {
    if is_upper_byte(b) {
        (b + 32) as u8
    } else {
        b
    }
}

/// The bytewise lower-case image of a byte sequence.
pub open spec fn lower_bytes(s: Seq<u8>) -> Seq<u8> {
    s.map_values(|b: u8| lower_byte(b))
}

/// Every `%` is followed, within the sequence, by two hexadecimal
/// digits.
pub open spec fn percent_encoded_ok(s: Seq<u8>) -> bool {
    forall|i: int|
        0 <= i < s.len() && #[trigger] s[i] == B_PERCENT ==> i + 2 < s.len() && is_hex_byte(s[i + 1])
            && is_hex_byte(s[i + 2])
}

/// The needle occurs in the haystack starting at index `i`.
pub open spec fn subslice_matches_at(haystack: Seq<u8>, needle: Seq<u8>, i: int) -> bool {
    haystack.subrange(i, i + needle.len() as int) == needle
}

/// The needle occurs somewhere in the haystack. An empty needle, or
/// one longer than the haystack, is defined not to occur.
pub open spec fn contains_seq(haystack: Seq<u8>, needle: Seq<u8>) -> bool {
    1 <= needle.len() <= haystack.len() && exists|i: int|
        0 <= i <= haystack.len() - needle.len() && subslice_matches_at(haystack, needle, i)
}

/// Exec mirror of [`is_digit_byte`].
pub fn check_digit_byte(b: u8) -> (r: bool)
    ensures
        r == is_digit_byte(b),
{
    B_0 <= b && b <= B_9
}

/// Exec mirror of [`is_alpha_byte`].
pub fn check_alpha_byte(b: u8) -> (r: bool)
    ensures
        r == is_alpha_byte(b),
{
    (B_UPPER_A <= b && b <= B_UPPER_Z) || (B_LOWER_A <= b && b <= B_LOWER_Z)
}

/// Exec mirror of [`is_alnum_byte`].
pub fn check_alnum_byte(b: u8) -> (r: bool)
    ensures
        r == is_alnum_byte(b),
{
    check_alpha_byte(b) || check_digit_byte(b)
}

/// Exec mirror of [`is_hex_byte`].
pub fn check_hex_byte(b: u8) -> (r: bool)
    ensures
        r == is_hex_byte(b),
{
    check_digit_byte(b) || (B_LOWER_A <= b && b <= B_LOWER_F) || (B_UPPER_A <= b && b <= B_UPPER_F)
}

/// Exec mirror of [`is_scheme_byte`].
pub fn check_scheme_byte(b: u8) -> (r: bool)
    ensures
        r == is_scheme_byte(b),
{
    check_alnum_byte(b) || b == B_PLUS || b == B_HYPHEN || b == B_DOT
}

/// Exec mirror of [`is_host_byte`].
pub fn check_host_byte(b: u8) -> (r: bool)
    ensures
        r == is_host_byte(b),
{
    check_alnum_byte(b) || b == B_HYPHEN || b == B_DOT
}

/// Exec mirror of [`is_path_byte`].
pub fn check_path_byte(b: u8) -> (r: bool)
    ensures
        r == is_path_byte(b),
{
    check_alnum_byte(b) || b == B_PERCENT || b == B_STAR || b == B_HYPHEN || b == B_DOT
        || b == B_SLASH || b == B_UNDERSCORE || b == B_TILDE
}

/// Exec mirror of [`is_query_byte`].
pub fn check_query_byte(b: u8) -> (r: bool)
    ensures
        r == is_query_byte(b),
{
    check_alnum_byte(b) || b == B_PERCENT || b == B_HYPHEN || b == B_DOT || b == B_UNDERSCORE
        || b == B_TILDE
}

/// The index of the first occurrence of `b` at or after `i`, or the
/// length of the sequence when there is none.
pub open spec fn first_index_from(s: Seq<u8>, b: u8, i: int) -> int
    decreases s.len() - i,
{
    if i < 0 || i >= s.len() {
        s.len() as int
    } else if s[i] == b {
        i
    } else {
        first_index_from(s, b, i + 1)
    }
}

/// Properties of the first-occurrence index: it lies between `from`
/// and the length, points at `b` when within bounds, and no byte
/// before it from `from` on is `b`.
pub proof fn lemma_first_index_props(s: Seq<u8>, b: u8, from: int)
    requires
        0 <= from <= s.len(),
    ensures
        from <= first_index_from(s, b, from) <= s.len(),
        first_index_from(s, b, from) < s.len() ==> s[first_index_from(s, b, from)] == b,
        forall|j: int| from <= j < first_index_from(s, b, from) ==> s[j] != b,
    decreases s.len() - from,
{
    if from < s.len() && s[from] != b {
        lemma_first_index_props(s, b, from + 1);
    }
}

/// The index of the first occurrence of `b` in `s` at or after
/// `from`, or the length of `s` when there is none.
pub fn find_byte(s: &[u8], b: u8, from: usize) -> (r: usize)
    requires
        from <= s@.len(),
    ensures
        r == first_index_from(s@, b, from as int),
{
    let n = s.len();
    let mut i = from;
    while i < n
        invariant
            n == s@.len(),
            from <= i <= n,
            first_index_from(s@, b, from as int) == first_index_from(s@, b, i as int),
        decreases n - i,
    {
        if s[i] == b {
            return i;
        }
        i = i + 1;
    }
    n
}

/// The deep view of a byte vector is its view.
pub proof fn lemma_bytes_deep_view(v: &Vec<u8>)
    ensures
        v.deep_view() == v@,
{
    assert(v.deep_view() =~= v@);
}

/// Folding to lower case twice is the same as folding once.
pub proof fn lemma_lower_bytes_idempotent(s: Seq<u8>)
    ensures
        lower_bytes(lower_bytes(s)) == lower_bytes(s),
{
    assert(lower_bytes(lower_bytes(s)) =~= lower_bytes(s));
}

/// Exec mirror of [`lower_byte`].
pub fn fold_lower_byte(b: u8) -> (r: u8)
    ensures
        r == lower_byte(b),
{
    if B_UPPER_A <= b && b <= B_UPPER_Z {
        b + 32
    } else {
        b
    }
}

/// The bytewise lower-case copy of a byte slice.
pub fn fold_lower(s: &[u8]) -> (r: Vec<u8>)
    ensures
        r@ == lower_bytes(s@),
{
    let mut out: Vec<u8> = Vec::new();
    let mut i: usize = 0;
    while i < s.len()
        invariant
            i <= s@.len(),
            out@.len() == i,
            forall|j: int| 0 <= j < i ==> out@[j] == lower_byte(s@[j]),
        decreases s@.len() - i,
    {
        out.push(fold_lower_byte(s[i]));
        i = i + 1;
    }
    proof {
        assert(out@ =~= lower_bytes(s@));
    }
    out
}

/// Two byte slices hold the same bytes.
pub fn bytes_eq(a: &[u8], b: &[u8]) -> (r: bool)
    ensures
        r == (a@ == b@),
{
    if a.len() != b.len() {
        return false;
    }
    let mut i: usize = 0;
    while i < a.len()
        invariant
            a@.len() == b@.len(),
            i <= a@.len(),
            forall|j: int| 0 <= j < i ==> a@[j] == b@[j],
        decreases a@.len() - i,
    {
        if a[i] != b[i] {
            return false;
        }
        i = i + 1;
    }
    proof {
        assert(a@ =~= b@);
    }
    true
}

/// Both bytes of a candidate `%HH` escape are hexadecimal digits.
pub fn is_percent_encoding(hex: [u8; 2]) -> (r: bool)
    ensures
        r == (is_hex_byte(hex[0]) && is_hex_byte(hex[1])),
{
    check_hex_byte(hex[0]) && check_hex_byte(hex[1])
}

/// Every `%` in the slice is followed by two hexadecimal digits that
/// both lie within the slice.
pub fn is_properly_percent_encoded(bytes: &[u8]) -> (r: bool)
    ensures
        r == percent_encoded_ok(bytes@),
{
    let mut i: usize = 0;
    while i < bytes.len()
        invariant
            i <= bytes@.len(),
            forall|j: int|
                0 <= j < i && #[trigger] bytes@[j] == B_PERCENT ==> j + 2 < bytes@.len() && is_hex_byte(
                    bytes@[j + 1],
                ) && is_hex_byte(bytes@[j + 2]),
        decreases bytes@.len() - i,
    {
        if bytes[i] == B_PERCENT {
            if bytes.len() - i <= 2 {
                return false;
            }
            if !is_percent_encoding([bytes[i + 1], bytes[i + 2]]) {
                return false;
            }
        }
        i = i + 1;
    }
    true
}

/// The needle occurs in the haystack starting at index `i`.
fn subslice_matches(src: &[u8], subslice: &[u8], i: usize) -> (r: bool)
    requires
        i + subslice@.len() <= src@.len(),
    ensures
        r == subslice_matches_at(src@, subslice@, i as int),
{
    let n = subslice.len();
    let m = src.len();
    let mut k: usize = 0;
    while k < n
        invariant
            n == subslice@.len(),
            m == src@.len(),
            i + n <= m,
            k <= n,
            forall|t: int| 0 <= t < k ==> src@[i + t] == subslice@[t],
        decreases n - k,
    {
        if src[i + k] != subslice[k] {
            proof {
                assert(src@.subrange(i as int, i + subslice@.len()) != subslice@) by {
                    assert(src@.subrange(i as int, i + subslice@.len())[k as int] == src@[i + k]);
                }
            }
            return false;
        }
        k = k + 1;
    }
    proof {
        assert(src@.subrange(i as int, i + subslice@.len()) =~= subslice@);
    }
    true
}

/// Literal substring search. An empty needle, or one longer than the
/// haystack, is not contained.
pub fn contains_subslice(src: &[u8], subslice: &[u8]) -> (r: bool)
    ensures
        r == contains_seq(src@, subslice@),
{
    let n = subslice.len();
    if n > src.len() || n == 0 {
        return false;
    }
    let last = src.len() - n;
    let mut i: usize = 0;
    while i <= last
        invariant
            1 <= n <= src@.len(),
            src@.len() <= usize::MAX,
            n == subslice@.len(),
            last == src@.len() - n,
            i <= last + 1,
            forall|j: int| 0 <= j < i ==> !subslice_matches_at(src@, subslice@, j),
        decreases last - i + 1,
    {
        if subslice_matches(src, subslice, i) {
            return true;
        }
        i = i + 1;
    }
    false
}

} // verus!
