//! The HTTP version matcher: a closed, case-sensitive keyword set.

use vstd::prelude::*;

verus! {

/// The HTTP protocol versions.
#[derive(Debug, PartialEq, Eq, Structural, Clone, Copy)]
pub enum Version {
    Http0_9,
    Http1_0,
    Http1_1,
    Http2,
    Http3,
}

/// Error returned when a version keyword is not recognized.
#[derive(Debug, PartialEq, Eq, Structural, Clone, Copy)]
pub struct InvalidHttpVersion;

/// The common `HTTP/` prefix of every version keyword.
pub open spec fn kw_http_slash() -> Seq<u8> {
    seq![72u8, 84u8, 84u8, 80u8, 47u8]
}

/// What matching a version keyword yields; matching is
/// case-sensitive.
pub open spec fn version_spec(s: Seq<u8>) -> Result<Version, InvalidHttpVersion> {
    if s == kw_http_slash() + seq![48u8, 46u8, 57u8] {  // HTTP/0.9
        Ok(Version::Http0_9)
    } else if s == kw_http_slash() + seq![49u8, 46u8, 48u8] {  // HTTP/1.0
        Ok(Version::Http1_0)
    } else if s == kw_http_slash() + seq![49u8, 46u8, 49u8] {  // HTTP/1.1
        Ok(Version::Http1_1)
    } else if s == kw_http_slash() + seq![50u8] {  // HTTP/2
        Ok(Version::Http2)
    } else if s == kw_http_slash() + seq![51u8] {  // HTTP/3
        Ok(Version::Http3)
    } else {
        Err(InvalidHttpVersion)
    }
}

impl Version {
    /// Matches a version keyword, case-sensitively.
    pub fn parse(s: &[u8]) -> (r: Result<Version, InvalidHttpVersion>)
        ensures
            r == version_spec(s@),
    {
        let n = s.len();
        let prefix = n >= 5 && s[0] == 72 && s[1] == 84 && s[2] == 84 && s[3] == 80 && s[4] == 47;
        if !prefix {
            proof {
                assert(s@ != kw_http_slash() + seq![48u8, 46u8, 57u8]);
                assert(s@ != kw_http_slash() + seq![49u8, 46u8, 48u8]);
                assert(s@ != kw_http_slash() + seq![49u8, 46u8, 49u8]);
                assert(s@ != kw_http_slash() + seq![50u8]);
                assert(s@ != kw_http_slash() + seq![51u8]);
            }
            return Err(InvalidHttpVersion);
        }
        if n == 8 && s[5] == 48 && s[6] == 46 && s[7] == 57 {
            proof {
                assert(s@ =~= kw_http_slash() + seq![48u8, 46u8, 57u8]);
            }
            Ok(Version::Http0_9)
        } else if n == 8 && s[5] == 49 && s[6] == 46 && s[7] == 48 {
            proof {
                assert(s@ =~= kw_http_slash() + seq![49u8, 46u8, 48u8]);
            }
            Ok(Version::Http1_0)
        } else if n == 8 && s[5] == 49 && s[6] == 46 && s[7] == 49 {
            proof {
                assert(s@ =~= kw_http_slash() + seq![49u8, 46u8, 49u8]);
            }
            Ok(Version::Http1_1)
        } else if n == 6 && s[5] == 50 {
            proof {
                assert(s@ =~= kw_http_slash() + seq![50u8]);
            }
            Ok(Version::Http2)
        } else if n == 6 && s[5] == 51 {
            proof {
                assert(s@ =~= kw_http_slash() + seq![51u8]);
            }
            Ok(Version::Http3)
        } else {
            Err(InvalidHttpVersion)
        }
    }
}

} // verus!
