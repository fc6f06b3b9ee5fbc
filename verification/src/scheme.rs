//! The scheme parser: recognizes the standard `http` and `https`
//! keywords, the empty scheme, and custom tokens, all case-insensitively;
//! a custom token must start with a letter and hold only scheme bytes.

use vstd::prelude::*;

use crate::utils::{
    all_scheme_bytes, bytes_eq, check_alpha_byte, check_scheme_byte, fold_lower, is_alpha_byte,
    is_scheme_byte, lower_bytes,
};

verus! {

/// Error returned when a scheme token is rejected.
#[derive(Debug, PartialEq, Eq, Structural, Clone, Copy)]
pub struct SchemeParseError;

/// The standard schemes recognized by keyword.
#[derive(Debug, PartialEq, Eq, Structural, Clone, Copy)]
pub enum CommonSchemes {
    Http,
    Https,
}

/// Representation of a parsed scheme: a standard keyword, a custom
/// token (stored lower-cased), or the empty scheme.
#[derive(Debug)]
pub enum Repr {
    Standard(CommonSchemes),
    Custom(Vec<u8>),
    Empty,
}

/// A validated URI scheme, normalized to lower case.
#[derive(Debug)]
pub struct Scheme {
    pub inner: Repr,
}

/// Mathematical model of a scheme value.
pub enum SchemeView {
    Http,
    Https,
    Empty,
    Custom(Seq<u8>),
}

impl View for Scheme {
    type V = SchemeView;

    open spec fn view(&self) -> SchemeView {
        match self.inner {
            Repr::Standard(CommonSchemes::Http) => SchemeView::Http,
            Repr::Standard(CommonSchemes::Https) => SchemeView::Https,
            Repr::Custom(t) => SchemeView::Custom(t@),
            Repr::Empty => SchemeView::Empty,
        }
    }
}

impl PartialEq for Scheme {
    fn eq(&self, other: &Scheme) -> (r: bool) {
        match (&self.inner, &other.inner) {
            (Repr::Standard(CommonSchemes::Http), Repr::Standard(CommonSchemes::Http)) => true,
            (Repr::Standard(CommonSchemes::Https), Repr::Standard(CommonSchemes::Https)) => true,
            (Repr::Empty, Repr::Empty) => true,
            (Repr::Custom(a), Repr::Custom(b)) => bytes_eq(a.as_slice(), b.as_slice()),
            _ => false,
        }
    }
}

impl vstd::std_specs::cmp::PartialEqSpecImpl for Scheme {
    open spec fn obeys_eq_spec() -> bool {
        true
    }

    open spec fn eq_spec(&self, other: &Scheme) -> bool {
        self@ == other@
    }
}

/// The keyword `http` as bytes.
pub open spec fn kw_http() -> Seq<u8> {
    seq![104u8, 116u8, 116u8, 112u8]
}

/// The keyword `https` as bytes.
pub open spec fn kw_https() -> Seq<u8> {
    seq![104u8, 116u8, 116u8, 112u8, 115u8]
}

/// A non-empty token of scheme bytes whose first byte is a letter.
pub open spec fn custom_scheme_ok(s: Seq<u8>) -> bool {
    s.len() > 0 && all_scheme_bytes(s) && is_alpha_byte(s[0])
}

/// What parsing a scheme token yields: the token is lower-cased; a
/// standard keyword gives its standard scheme, the empty token the
/// empty scheme, and any other valid token a custom scheme.
pub open spec fn scheme_spec(s: Seq<u8>) -> Option<SchemeView> {
    let t = lower_bytes(s);
    if t == kw_http() {
        Some(SchemeView::Http)
    } else if t == kw_https() {
        Some(SchemeView::Https)
    } else if s.len() == 0 {
        Some(SchemeView::Empty)
    } else if custom_scheme_ok(t) {
        Some(SchemeView::Custom(t))
    } else {
        None
    }
}

/// The serialized bytes of a scheme value.
pub open spec fn scheme_bytes(v: SchemeView) -> Seq<u8> {
    match v {
        SchemeView::Http => kw_http(),
        SchemeView::Https => kw_https(),
        SchemeView::Empty => Seq::empty(),
        SchemeView::Custom(t) => t,
    }
}

impl Scheme {
    /// A byte a scheme token may hold: a letter, a digit, `+`, `-` or `.`.
    pub fn is_valid_scheme_byte(b: &u8) -> (r: bool)
        ensures
            r == is_scheme_byte(*b),
    {
        check_scheme_byte(*b)
    }

    /// Validates a token, without case folding or keyword lookup: the
    /// empty token gives the empty scheme, any other token of scheme
    /// bytes starting with a letter gives a custom scheme holding the
    /// token verbatim.
    pub fn parse_custom_scheme(s: &[u8]) -> (r: Result<Scheme, SchemeParseError>)
        ensures
            r is Ok <==> all_scheme_bytes(s@) && (s@.len() == 0 || is_alpha_byte(s@[0])),
            r is Ok && s@.len() == 0 ==> r->Ok_0@ == SchemeView::Empty,
            r is Ok && s@.len() > 0 ==> r->Ok_0@ == SchemeView::Custom(s@),
    {
        if !all_scheme_bytes_check(s) {
            Err(SchemeParseError)
        } else if s.len() == 0 {
            Ok(Scheme { inner: Repr::Empty })
        } else if check_alpha_byte(s[0]) {
            Ok(Scheme { inner: Repr::Custom(vstd::slice::slice_to_vec(s)) })
        } else {
            Err(SchemeParseError)
        }
    }

    /// Parses a scheme token. The token is folded to lower case; the
    /// keywords `http` and `https` give the standard schemes, the
    /// empty token the empty scheme, and any other token of scheme
    /// bytes starting with a letter a custom scheme.
    pub fn parse(s: &[u8]) -> (r: Result<Scheme, SchemeParseError>)
        ensures
            r is Ok <==> scheme_spec(s@) is Some,
            r is Ok ==> r->Ok_0@ == scheme_spec(s@)->0,
    {
        let low = fold_lower(s);
        if eq_kw_http(low.as_slice()) {
            Ok(Scheme { inner: Repr::Standard(CommonSchemes::Http) })
        } else if eq_kw_https(low.as_slice()) {
            Ok(Scheme { inner: Repr::Standard(CommonSchemes::Https) })
        } else if low.len() == 0 {
            Ok(Scheme { inner: Repr::Empty })
        } else {
            Scheme::parse_custom_scheme(low.as_slice())
        }
    }

    /// Serializes the scheme: the keyword for a standard scheme, the
    /// stored token for a custom one, nothing for the empty one.
    pub fn to_bytes(&self) -> (r: Vec<u8>)
        ensures
            r@ == scheme_bytes(self@),
    {
        match &self.inner {
            Repr::Standard(CommonSchemes::Http) => {
                let mut out: Vec<u8> = Vec::new();
                out.push(104);
                out.push(116);
                out.push(116);
                out.push(112);
                proof {
                    assert(out@ =~= kw_http());
                }
                out
            },
            Repr::Standard(CommonSchemes::Https) => {
                let mut out: Vec<u8> = Vec::new();
                out.push(104);
                out.push(116);
                out.push(116);
                out.push(112);
                out.push(115);
                proof {
                    assert(out@ =~= kw_https());
                }
                out
            },
            Repr::Empty => {
                let out: Vec<u8> = Vec::new();
                proof {
                    assert(out@ =~= Seq::<u8>::empty());
                }
                out
            },
            Repr::Custom(t) => vstd::slice::slice_to_vec(t.as_slice()),
        }
    }
}

/// The slice holds exactly the keyword `http`.
fn eq_kw_http(s: &[u8]) -> (r: bool)
    ensures
        r == (s@ == kw_http()),
{
    if s.len() == 4 && s[0] == 104 && s[1] == 116 && s[2] == 116 && s[3] == 112 {
        proof {
            assert(s@ =~= kw_http());
        }
        true
    } else {
        false
    }
}

/// The slice holds exactly the keyword `https`.
fn eq_kw_https(s: &[u8]) -> (r: bool)
    ensures
        r == (s@ == kw_https()),
{
    if s.len() == 5 && s[0] == 104 && s[1] == 116 && s[2] == 116 && s[3] == 112 && s[4] == 115 {
        proof {
            assert(s@ =~= kw_https());
        }
        true
    } else {
        false
    }
}

/// Every byte of the slice is a scheme byte.
fn all_scheme_bytes_check(s: &[u8]) -> (r: bool)
    ensures
        r == all_scheme_bytes(s@),
{
    let mut i: usize = 0;
    while i < s.len()
        invariant
            i <= s@.len(),
            forall|j: int| 0 <= j < i ==> is_scheme_byte(#[trigger] s@[j]),
        decreases s@.len() - i,
    {
        if !check_scheme_byte(s[i]) {
            return false;
        }
        i = i + 1;
    }
    true
}

/// Law: parsing is stable under serialization — serializing an
/// accepted scheme and parsing the result yields the same value.
pub proof fn lemma_scheme_roundtrip(s: Seq<u8>)
    requires
        scheme_spec(s) is Some,
    ensures
        scheme_spec(scheme_bytes(scheme_spec(s)->0)) == scheme_spec(s),
{
    let v = scheme_spec(s)->0;
    let t = lower_bytes(s);
    crate::utils::lemma_lower_bytes_idempotent(s);
    match v {
        SchemeView::Http => {
            assert(lower_bytes(kw_http()) =~= kw_http());
        },
        SchemeView::Https => {
            assert(lower_bytes(kw_https()) =~= kw_https());
        },
        SchemeView::Empty => {
            assert(lower_bytes(Seq::<u8>::empty()) =~= Seq::<u8>::empty());
        },
        SchemeView::Custom(c) => {
            assert(c == t);
            assert(lower_bytes(t) == t);
        },
    }
}

} // verus!
