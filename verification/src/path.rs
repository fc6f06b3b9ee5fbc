//! The path parser: an absolute path over the path byte class, with
//! traversal and hidden-segment guards. It rejects empty input, a
//! missing leading `/`, any `//` or `..`, malformed percent-encoding,
//! a `.` opening a hidden segment, and a `~` that is not a home-style
//! segment opener. A path that is exactly `*` is reserved and
//! surfaces as a distinct unsupported outcome.

use vstd::prelude::*;

use crate::utils::{
    all_path_bytes, bytes_eq, check_alnum_byte, check_path_byte, contains_seq, contains_subslice,
    is_alnum_byte, is_path_byte, is_properly_percent_encoded, percent_encoded_ok, B_DOT, B_SLASH,
    B_STAR, B_TILDE,
};

verus! {

/// Error returned when a path is rejected: malformed input, or the
/// reserved `*` form that is not yet supported.
#[derive(Debug, PartialEq, Eq, Structural, Clone, Copy)]
pub enum PathParseError {
    Invalid,
    StarUnsupported,
}

/// A validated absolute path, stored verbatim (paths are
/// case-sensitive).
#[derive(Debug)]
pub struct Path {
    pub pathstr: Vec<u8>,
}

impl View for Path {
    type V = Seq<u8>;

    open spec fn view(&self) -> Seq<u8> {
        self.pathstr@
    }
}

impl PartialEq for Path {
    fn eq(&self, other: &Path) -> (r: bool) {
        bytes_eq(self.pathstr.as_slice(), other.pathstr.as_slice())
    }
}

impl vstd::std_specs::cmp::PartialEqSpecImpl for Path {
    open spec fn obeys_eq_spec() -> bool {
        true
    }

    open spec fn eq_spec(&self, other: &Path) -> bool {
        self@ == other@
    }
}

/// No `.` opens a hidden segment: a `.` directly after a `/` must not
/// be followed by an alphanumeric byte, unless the `.` is the last
/// byte of the path.
pub open spec fn hidden_segment_ok(s: Seq<u8>) -> bool {
    forall|i: int|
        0 < i < s.len() - 1 && #[trigger] s[i] == B_DOT && s[i - 1] == B_SLASH ==> !is_alnum_byte(
            s[i + 1],
        )
}

/// Every `~` opens a home-style segment: it is directly after a `/`
/// and directly before an alphanumeric byte.
pub open spec fn tilde_ok(s: Seq<u8>) -> bool {
    forall|i: int|
        0 <= i < s.len() && #[trigger] s[i] == B_TILDE ==> 0 < i < s.len() - 1 && s[i - 1]
            == B_SLASH && is_alnum_byte(s[i + 1])
}

/// A valid absolute path: non-empty, all bytes in the path class, no
/// `*`, leading `/`, no `//` or `..` anywhere, well-formed
/// percent-encoding, and the hidden-segment and `~` rules.
pub open spec fn path_ok(s: Seq<u8>) -> bool {
    &&& s.len() > 0
    &&& all_path_bytes(s)
    &&& forall|i: int| 0 <= i < s.len() ==> #[trigger] s[i] != B_STAR
    &&& s[0] == B_SLASH
    &&& !contains_seq(s, seq![B_SLASH, B_SLASH])
    &&& !contains_seq(s, seq![B_DOT, B_DOT])
    &&& percent_encoded_ok(s)
    &&& hidden_segment_ok(s)
    &&& tilde_ok(s)
}

/// What parsing a path yields: the reserved `*` form is a distinct
/// unsupported outcome, any other valid path is kept verbatim, and
/// everything else is rejected.
pub open spec fn path_spec(s: Seq<u8>) -> Result<Seq<u8>, PathParseError> {
    if s == seq![B_STAR] {
        Err(PathParseError::StarUnsupported)
    } else if path_ok(s) {
        Ok(s)
    } else {
        Err(PathParseError::Invalid)
    }
}

impl Path {
    /// Wraps path bytes verbatim, without validation.
    pub fn new(s: &[u8]) -> (r: Path)
        ensures
            r@ == s@,
    {
        Path { pathstr: vstd::slice::slice_to_vec(s) }
    }

    /// A byte a path may hold: a letter, a digit, or one of
    /// `%*-./_~`.
    pub fn is_valid_path_byte(b: &u8) -> (r: bool)
        ensures
            r == is_path_byte(*b),
    {
        check_path_byte(*b)
    }

    /// Parses an absolute path. The input is accepted exactly when it
    /// is a valid path, and is kept verbatim; the reserved `*` form is
    /// reported as unsupported.
    pub fn parse(s: &[u8]) -> (r: Result<Path, PathParseError>)
        ensures
            r is Ok <==> path_spec(s@) is Ok,
            r is Ok ==> r->Ok_0@ == path_spec(s@)->Ok_0,
            r is Err ==> r->Err_0 == path_spec(s@)->Err_0,
    {
        let n = s.len();
        if n == 0 {
            return Err(PathParseError::Invalid);
        }
        let mut i: usize = 0;
        while i < n
            invariant
                n == s@.len(),
                i <= n,
                forall|j: int| 0 <= j < i ==> is_path_byte(#[trigger] s@[j]),
            decreases n - i,
        {
            if !check_path_byte(s[i]) {
                assert(s@ != seq![B_STAR]);
                return Err(PathParseError::Invalid);
            }
            i = i + 1;
        }
        let mut k: usize = 0;
        while k < n
            invariant
                n == s@.len(),
                k <= n,
                forall|j: int| 0 <= j < k ==> #[trigger] s@[j] != B_STAR,
            decreases n - k,
        {
            if s[k] == B_STAR {
                if n == 1 {
                    proof {
                        assert(s@ =~= seq![B_STAR]);
                    }
                    return Err(PathParseError::StarUnsupported);
                }
                assert(s@ != seq![B_STAR]);
                return Err(PathParseError::Invalid);
            }
            k = k + 1;
        }
        assert(s@ != seq![B_STAR]) by {
            assert(s@[0] != B_STAR);
        }
        if s[0] != B_SLASH {
            return Err(PathParseError::Invalid);
        }
        let mut slashes: Vec<u8> = Vec::new();
        slashes.push(B_SLASH);
        slashes.push(B_SLASH);
        proof {
            assert(slashes@ =~= seq![B_SLASH, B_SLASH]);
        }
        if contains_subslice(s, slashes.as_slice()) {
            return Err(PathParseError::Invalid);
        }
        let mut dots: Vec<u8> = Vec::new();
        dots.push(B_DOT);
        dots.push(B_DOT);
        proof {
            assert(dots@ =~= seq![B_DOT, B_DOT]);
        }
        if contains_subslice(s, dots.as_slice()) {
            return Err(PathParseError::Invalid);
        }
        if !is_properly_percent_encoded(s) {
            return Err(PathParseError::Invalid);
        }
        let mut d: usize = 1;
        while d < n - 1
            invariant
                n == s@.len(),
                1 <= n,
                1 <= d <= n,
                forall|j: int|
                    0 < j < d && #[trigger] s@[j] == B_DOT && s@[j - 1] == B_SLASH
                        ==> !is_alnum_byte(s@[j + 1]),
            decreases n - d,
        {
            if s[d] == B_DOT && s[d - 1] == B_SLASH && check_alnum_byte(s[d + 1]) {
                assert(!hidden_segment_ok(s@));
                return Err(PathParseError::Invalid);
            }
            d = d + 1;
        }
        assert(hidden_segment_ok(s@));
        let mut t: usize = 0;
        while t < n
            invariant
                n == s@.len(),
                t <= n,
                forall|j: int|
                    0 <= j < t && #[trigger] s@[j] == B_TILDE ==> 0 < j < s@.len() - 1 && s@[j - 1]
                        == B_SLASH && is_alnum_byte(s@[j + 1]),
            decreases n - t,
        {
            if s[t] == B_TILDE {
                if t == 0 || t + 1 >= n {
                    assert(!tilde_ok(s@));
                    return Err(PathParseError::Invalid);
                }
                if s[t - 1] != B_SLASH || !check_alnum_byte(s[t + 1]) {
                    assert(!tilde_ok(s@));
                    return Err(PathParseError::Invalid);
                }
            }
            t = t + 1;
        }
        assert(tilde_ok(s@));
        assert(path_ok(s@));
        Ok(Path { pathstr: vstd::slice::slice_to_vec(s) })
    }
}

} // verus!
