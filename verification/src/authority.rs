//! The authority parser: a hostname with an optional port, written
//! `host` or `host:port`. Hostnames are validated against the hostname
//! byte class and stored lower-cased; ports are unsigned 16-bit
//! decimal numbers. A single trailing `:part` that is not a valid port
//! is tolerated (the authority keeps the host and drops the port),
//! while more than one `:` separator is a hard failure.

use vstd::prelude::*;

use crate::utils::{
    all_host_bytes, bytes_eq, check_alnum_byte, check_digit_byte, check_host_byte, find_byte,
    first_index_from, fold_lower, is_alnum_byte, is_digit_byte, is_host_byte,
    lemma_first_index_props, lower_byte, lower_bytes, B_0, B_COLON, B_DOT, B_HYPHEN,
};

verus! {

/// Error returned when a hostname is rejected.
#[derive(Debug, PartialEq, Eq, Structural, Clone, Copy)]
pub struct HostParseError;

/// Error returned when a port is rejected.
#[derive(Debug, PartialEq, Eq, Structural, Clone, Copy)]
pub struct PortParseError;

/// Error returned when an authority is rejected.
#[derive(Debug, PartialEq, Eq, Structural, Clone, Copy)]
pub struct AuthorityParseError;

/// A validated hostname, stored lower-cased.
#[derive(Debug)]
pub struct Host {
    pub inner: Vec<u8>,
}

impl View for Host {
    type V = Seq<u8>;

    open spec fn view(&self) -> Seq<u8> {
        self.inner@
    }
}

impl PartialEq for Host {
    fn eq(&self, other: &Host) -> (r: bool) {
        bytes_eq(self.inner.as_slice(), other.inner.as_slice())
    }
}

impl vstd::std_specs::cmp::PartialEqSpecImpl for Host {
    open spec fn obeys_eq_spec() -> bool {
        true
    }

    open spec fn eq_spec(&self, other: &Host) -> bool {
        self@ == other@
    }
}

/// A port number.
#[derive(Debug, PartialEq, Eq, Structural, Clone, Copy)]
pub struct Port {
    pub inner: u16,
}

/// A hostname with an optional port.
#[derive(Debug)]
pub struct Authority {
    pub host: Host,
    pub port: Option<Port>,
}

/// Mathematical model of an authority value.
pub struct AuthorityView {
    pub host: Seq<u8>,
    pub port: Option<u16>,
}

impl View for Authority {
    type V = AuthorityView;

    open spec fn view(&self) -> AuthorityView {
        AuthorityView {
            host: self.host@,
            port: match self.port {
                Some(p) => Some(p.inner),
                None => None,
            },
        }
    }
}

impl PartialEq for Authority {
    fn eq(&self, other: &Authority) -> (r: bool) {
        let hosts_match = bytes_eq(self.host.inner.as_slice(), other.host.inner.as_slice());
        let ports_match = match (&self.port, &other.port) {
            (Some(a), Some(b)) => a.inner == b.inner,
            (None, None) => true,
            _ => false,
        };
        hosts_match && ports_match
    }
}

impl vstd::std_specs::cmp::PartialEqSpecImpl for Authority {
    open spec fn obeys_eq_spec() -> bool {
        true
    }

    open spec fn eq_spec(&self, other: &Authority) -> bool {
        self@ == other@
    }
}

/// Every byte of the sequence is a decimal digit.
pub open spec fn all_digit_bytes(s: Seq<u8>) -> bool {
    forall|i: int| 0 <= i < s.len() ==> is_digit_byte(#[trigger] s[i])
}

/// An adjacent pair of hostname bytes that is never allowed: `..`,
/// `-.` and `.-`.
pub open spec fn host_pair_ok(a: u8, b: u8) -> bool {
    !(a == B_DOT && b == B_DOT) && !(a == B_HYPHEN && b == B_DOT) && !(a == B_DOT && b == B_HYPHEN)
}

/// No forbidden adjacent pair occurs in the sequence.
pub open spec fn host_pairs_ok(s: Seq<u8>) -> bool {
    forall|i: int| 0 <= i < s.len() - 1 ==> #[trigger] host_pair_ok(s[i], s[i + 1])
}

/// A valid hostname: non-empty, all bytes in the hostname class, the
/// first byte alphanumeric, not purely numeric, no `..`, no `-.` or
/// `.-` adjacency, and no trailing `-` or `.`.
pub open spec fn host_ok(s: Seq<u8>) -> bool {
    &&& s.len() > 0
    &&& all_host_bytes(s)
    &&& is_alnum_byte(s[0])
    &&& !all_digit_bytes(s)
    &&& host_pairs_ok(s)
    &&& s[s.len() - 1] != B_DOT
    &&& s[s.len() - 1] != B_HYPHEN
}

/// The value of a sequence of decimal digit bytes.
pub open spec fn dec_value(s: Seq<u8>) -> int
    decreases s.len(),
{
    if s.len() == 0 {
        0
    } else {
        dec_value(s.drop_last()) * 10 + (s.last() - B_0)
    }
}

/// A valid port: a non-empty sequence of decimal digits whose value
/// fits in 16 bits.
pub open spec fn port_ok(s: Seq<u8>) -> bool {
    s.len() > 0 && all_digit_bytes(s) && dec_value(s) <= 65535
}

/// What parsing an authority yields: with no `:` the whole input is
/// the host; with one `:` the part before it is the host and the part
/// after it the port, kept only if it parses; with more than one `:`
/// the input is rejected.
pub open spec fn authority_spec(s: Seq<u8>) -> Option<AuthorityView> {
    let c1 = first_index_from(s, B_COLON, 0);
    if c1 == s.len() {
        if host_ok(s) {
            Some(AuthorityView { host: lower_bytes(s), port: None })
        } else {
            None
        }
    } else {
        let c2 = first_index_from(s, B_COLON, c1 + 1);
        if c2 < s.len() {
            None
        } else {
            let h = s.subrange(0, c1);
            let p = s.subrange(c1 + 1, s.len() as int);
            if host_ok(h) {
                Some(
                    AuthorityView {
                        host: lower_bytes(h),
                        port: if port_ok(p) {
                            Some(dec_value(p) as u16)
                        } else {
                            None
                        },
                    },
                )
            } else {
                None
            }
        }
    }
}

/// The decimal digits of `n`, most significant first, no leading zeros.
pub open spec fn dec_digits(n: int) -> Seq<u8>
    decreases n,
{
    if n < 10 {
        seq![(n + B_0) as u8]
    } else {
        dec_digits(n / 10).push((n % 10 + B_0) as u8)
    }
}

/// The serialized bytes of an authority: `host` or `host:port`.
pub open spec fn authority_bytes(v: AuthorityView) -> Seq<u8> {
    match v.port {
        Some(p) => v.host + seq![B_COLON] + dec_digits(p as int),
        None => v.host,
    }
}

/// Folding a valid hostname to lower case keeps it valid.
pub proof fn lemma_host_ok_lower(s: Seq<u8>)
    requires
        host_ok(s),
    ensures
        host_ok(lower_bytes(s)),
        lower_bytes(lower_bytes(s)) == lower_bytes(s),
{
    let t = lower_bytes(s);
    assert(t.len() == s.len());
    assert forall|i: int| 0 <= i < t.len() implies is_host_byte(#[trigger] t[i]) by {
        assert(is_host_byte(s[i]));
    }
    let w = choose|j: int| 0 <= j < s.len() && !is_digit_byte(#[trigger] s[j]);
    assert(!is_digit_byte(t[w]));
    assert(!all_digit_bytes(t));
    assert forall|i: int| 0 <= i < t.len() - 1 implies #[trigger] host_pair_ok(t[i], t[i + 1]) by {
        assert(host_pair_ok(s[i], s[i + 1]));
    }
    assert(t[t.len() - 1] == lower_byte(s[s.len() - 1]));
    crate::utils::lemma_lower_bytes_idempotent(s);
}

impl Host {
    /// A byte a hostname may hold: a letter, a digit, `-` or `.`.
    pub fn is_valid_host_byte(b: &u8) -> (r: bool)
        ensures
            r == is_host_byte(*b),
    {
        check_host_byte(*b)
    }

    /// Parses a hostname. The input is accepted exactly when it is a
    /// valid hostname, and is stored folded to lower case.
    pub fn parse(s: &[u8]) -> (r: Result<Host, HostParseError>)
        ensures
            r is Ok <==> host_ok(s@),
            r is Ok ==> r->Ok_0@ == lower_bytes(s@) && host_ok(r->Ok_0@),
    {
        let n = s.len();
        if n == 0 {
            return Err(HostParseError);
        }
        let mut i: usize = 0;
        while i < n
            invariant
                n == s@.len(),
                i <= n,
                forall|j: int| 0 <= j < i ==> is_host_byte(#[trigger] s@[j]),
            decreases n - i,
        {
            if !check_host_byte(s[i]) {
                return Err(HostParseError);
            }
            i = i + 1;
        }
        if !check_alnum_byte(s[0]) {
            return Err(HostParseError);
        }
        let mut k: usize = 0;
        let mut seen_non_digit = false;
        while k < n
            invariant
                n == s@.len(),
                k <= n,
                seen_non_digit <==> exists|j: int| 0 <= j < k && !is_digit_byte(#[trigger] s@[j]),
            decreases n - k,
        {
            if !check_digit_byte(s[k]) {
                seen_non_digit = true;
            }
            k = k + 1;
        }
        if !seen_non_digit {
            assert(all_digit_bytes(s@));
            return Err(HostParseError);
        }
        let mut p: usize = 0;
        while p + 1 < n
            invariant
                n == s@.len(),
                p < n,
                forall|j: int| 0 <= j < p ==> #[trigger] host_pair_ok(s@[j], s@[j + 1]),
            decreases n - p,
        {
            let a = s[p];
            let b = s[p + 1];
            if (a == B_DOT && b == B_DOT) || (a == B_HYPHEN && b == B_DOT) || (a == B_DOT
                && b == B_HYPHEN) {
                assert(!host_pair_ok(s@[p as int], s@[p + 1]));
                return Err(HostParseError);
            }
            assert(host_pair_ok(s@[p as int], s@[p + 1]));
            p = p + 1;
        }
        let last = s[n - 1];
        if last == B_DOT || last == B_HYPHEN {
            return Err(HostParseError);
        }
        assert(host_ok(s@));
        proof {
            lemma_host_ok_lower(s@);
        }
        Ok(Host { inner: fold_lower(s) })
    }
}

impl Port {
    /// Parses a port: a non-empty string of decimal digits whose
    /// value fits in 16 bits.
    pub fn parse(s: &[u8]) -> (r: Result<Port, PortParseError>)
        ensures
            r is Ok <==> port_ok(s@),
            r is Ok ==> r->Ok_0.inner == dec_value(s@),
    {
        let n = s.len();
        if n == 0 {
            return Err(PortParseError);
        }
        let mut i: usize = 0;
        let mut val: u32 = 0;
        let mut over = false;
        while i < n
            invariant
                n == s@.len(),
                i <= n,
                forall|j: int| 0 <= j < i ==> is_digit_byte(#[trigger] s@[j]),
                !over ==> val == dec_value(s@.subrange(0, i as int)) && val <= 65535,
                over ==> dec_value(s@.subrange(0, i as int)) > 65535,
            decreases n - i,
        {
            let b = s[i];
            if !check_digit_byte(b) {
                return Err(PortParseError);
            }
            proof {
                assert(s@.subrange(0, i + 1).drop_last() =~= s@.subrange(0, i as int));
                assert(s@.subrange(0, i + 1).last() == s@[i as int]);
            }
            if over {
                proof {
                    let prev = dec_value(s@.subrange(0, i as int));
                    assert(dec_value(s@.subrange(0, i + 1)) == prev * 10 + (s@[i as int] - B_0));
                }
            } else {
                let d = (b - B_0) as u32;
                let nv = val * 10 + d;
                if nv > 65535 {
                    over = true;
                } else {
                    val = nv;
                }
            }
            i = i + 1;
        }
        proof {
            assert(s@.subrange(0, n as int) =~= s@);
        }
        if over {
            return Err(PortParseError);
        }
        Ok(Port { inner: val as u16 })
    }
}

impl Authority {
    /// An authority with an empty host and no port.
    pub fn new() -> (r: Authority)
        ensures
            r@ == (AuthorityView { host: Seq::<u8>::empty(), port: None }),
    {
        let empty: Vec<u8> = Vec::new();
        Authority { host: Host { inner: empty }, port: None }
    }

    /// Replaces the host, keeping the port. The bytes are stored
    /// verbatim, without validation.
    pub fn host(self, hostname: &[u8]) -> (r: Authority)
        ensures
            r@ == (AuthorityView { host: hostname@, port: self@.port }),
    {
        Authority { host: Host { inner: vstd::slice::slice_to_vec(hostname) }, port: self.port }
    }

    /// Replaces the port, keeping the host.
    pub fn port(self, port: u16) -> (r: Authority)
        ensures
            r@ == (AuthorityView { host: self@.host, port: Some(port) }),
    {
        Authority { host: self.host, port: Some(Port { inner: port }) }
    }

    /// Parses an authority, splitting on `:`. No `:`: the whole input
    /// must be a valid host. One `:`: the part before it must be a
    /// valid host, and the part after it is kept as the port exactly
    /// when it parses as one. More than one `:`: rejected.
    pub fn parse(s: &[u8]) -> (r: Result<Authority, AuthorityParseError>)
        ensures
            r is Ok <==> authority_spec(s@) is Some,
            r is Ok ==> r->Ok_0@ == authority_spec(s@)->0,
    {
        proof {
            lemma_first_index_props(s@, B_COLON, 0);
        }
        let c1 = find_byte(s, B_COLON, 0);
        if c1 == s.len() {
            match Host::parse(s) {
                Ok(h) => Ok(Authority { host: h, port: None }),
                Err(_) => Err(AuthorityParseError),
            }
        } else {
            proof {
                lemma_first_index_props(s@, B_COLON, c1 + 1);
            }
            let c2 = find_byte(s, B_COLON, c1 + 1);
            if c2 < s.len() {
                return Err(AuthorityParseError);
            }
            let hpart = vstd::slice::slice_subrange(s, 0, c1);
            let ppart = vstd::slice::slice_subrange(s, c1 + 1, s.len());
            match Host::parse(hpart) {
                Err(_) => Err(AuthorityParseError),
                Ok(h) => match Port::parse(ppart) {
                    Ok(p) => Ok(Authority { host: h, port: Some(p) }),
                    Err(_) => Ok(Authority { host: h, port: None }),
                },
            }
        }
    }

    /// Serializes the authority: `host` when there is no port,
    /// `host:port` with the port in decimal otherwise.
    pub fn to_bytes(&self) -> (r: Vec<u8>)
        ensures
            r@ == authority_bytes(self@),
    {
        let mut out = vstd::slice::slice_to_vec(self.host.inner.as_slice());
        match &self.port {
            Some(p) => {
                out.push(B_COLON);
                push_dec_digits(p.inner, &mut out);
                proof {
                    assert(out@ =~= self.host@ + seq![B_COLON] + dec_digits(p.inner as int));
                }
            },
            None => {},
        }
        out
    }
}

/// Appends the decimal digits of `n` to `out`, most significant
/// first.
fn push_dec_digits(n: u16, out: &mut Vec<u8>)
    ensures
        final(out)@ == old(out)@ + dec_digits(n as int),
    decreases n,
{
    if n < 10 {
        out.push((n as u8) + B_0);
        proof {
            assert(out@ =~= old(out)@ + dec_digits(n as int));
        }
    } else {
        push_dec_digits(n / 10, out);
        out.push(((n % 10) as u8) + B_0);
        proof {
            assert(out@ =~= old(out)@ + dec_digits(n as int));
        }
    }
}

/// Law: an authority with no port round-trips — parsing its
/// serialized form yields it back. It must be well-formed, as every
/// parsed authority is: a valid hostname already in lower case.
pub proof fn lemma_authority_roundtrip(v: AuthorityView)
    requires
        v.port is None,
        host_ok(v.host),
        v.host == lower_bytes(v.host),
    ensures
        authority_spec(authority_bytes(v)) == Some(v),
{
    let s = authority_bytes(v);
    assert(s == v.host);
    lemma_first_index_props(s, B_COLON, 0);
    let c1 = first_index_from(s, B_COLON, 0);
    if c1 < s.len() {
        assert(s[c1] == B_COLON);
        assert(is_host_byte(s[c1]));
        assert(false);
    }
}

} // verus!
