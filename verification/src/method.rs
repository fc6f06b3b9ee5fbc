//! The HTTP method matcher: a closed, case-sensitive keyword set.

use vstd::prelude::*;

verus! {

/// The HTTP request methods.
#[derive(Debug, PartialEq, Eq, Structural, Clone, Copy)]
pub enum Method {
    Get,
    Head,
    Post,
    Put,
    Delete,
    Connect,
    Options,
    Trace,
    Patch,
}

/// Error returned when a method keyword is not recognized.
#[derive(Debug, PartialEq, Eq, Structural, Clone, Copy)]
pub struct InvalidHttpMethod;

/// What matching a method keyword yields; matching is case-sensitive.
pub open spec fn method_spec(s: Seq<u8>) -> Result<Method, InvalidHttpMethod> {
    if s == seq![71u8, 69u8, 84u8] {  // GET
        Ok(Method::Get)
    } else if s == seq![72u8, 69u8, 65u8, 68u8] {  // HEAD
        Ok(Method::Head)
    } else if s == seq![80u8, 79u8, 83u8, 84u8] {  // POST
        Ok(Method::Post)
    } else if s == seq![80u8, 85u8, 84u8] {  // PUT
        Ok(Method::Put)
    } else if s == seq![68u8, 69u8, 76u8, 69u8, 84u8, 69u8] {  // DELETE
        Ok(Method::Delete)
    } else if s == seq![67u8, 79u8, 78u8, 78u8, 69u8, 67u8, 84u8] {  // CONNECT
        Ok(Method::Connect)
    } else if s == seq![79u8, 80u8, 84u8, 73u8, 79u8, 78u8, 83u8] {  // OPTIONS
        Ok(Method::Options)
    } else if s == seq![84u8, 82u8, 65u8, 67u8, 69u8] {  // TRACE
        Ok(Method::Trace)
    } else if s == seq![80u8, 65u8, 84u8, 67u8, 72u8] {  // PATCH
        Ok(Method::Patch)
    } else {
        Err(InvalidHttpMethod)
    }
}

impl Method {
    /// Matches a method keyword, case-sensitively.
    pub fn parse(s: &[u8]) -> (r: Result<Method, InvalidHttpMethod>)
        ensures
            r == method_spec(s@),
    {
        let n = s.len();
        if n == 3 && s[0] == 71 && s[1] == 69 && s[2] == 84 {
            proof {
                assert(s@ =~= seq![71u8, 69u8, 84u8]);
            }
            Ok(Method::Get)
        } else if n == 4 && s[0] == 72 && s[1] == 69 && s[2] == 65 && s[3] == 68 {
            proof {
                assert(s@ =~= seq![72u8, 69u8, 65u8, 68u8]);
            }
            Ok(Method::Head)
        } else if n == 4 && s[0] == 80 && s[1] == 79 && s[2] == 83 && s[3] == 84 {
            proof {
                assert(s@ =~= seq![80u8, 79u8, 83u8, 84u8]);
            }
            Ok(Method::Post)
        } else if n == 3 && s[0] == 80 && s[1] == 85 && s[2] == 84 {
            proof {
                assert(s@ =~= seq![80u8, 85u8, 84u8]);
            }
            Ok(Method::Put)
        } else if n == 6 && s[0] == 68 && s[1] == 69 && s[2] == 76 && s[3] == 69 && s[4] == 84
            && s[5] == 69 {
            proof {
                assert(s@ =~= seq![68u8, 69u8, 76u8, 69u8, 84u8, 69u8]);
            }
            Ok(Method::Delete)
        } else if n == 7 && s[0] == 67 && s[1] == 79 && s[2] == 78 && s[3] == 78 && s[4] == 69
            && s[5] == 67 && s[6] == 84 {
            proof {
                assert(s@ =~= seq![67u8, 79u8, 78u8, 78u8, 69u8, 67u8, 84u8]);
            }
            Ok(Method::Connect)
        } else if n == 7 && s[0] == 79 && s[1] == 80 && s[2] == 84 && s[3] == 73 && s[4] == 79
            && s[5] == 78 && s[6] == 83 {
            proof {
                assert(s@ =~= seq![79u8, 80u8, 84u8, 73u8, 79u8, 78u8, 83u8]);
            }
            Ok(Method::Options)
        } else if n == 5 && s[0] == 84 && s[1] == 82 && s[2] == 65 && s[3] == 67 && s[4] == 69 {
            proof {
                assert(s@ =~= seq![84u8, 82u8, 65u8, 67u8, 69u8]);
            }
            Ok(Method::Trace)
        } else if n == 5 && s[0] == 80 && s[1] == 65 && s[2] == 84 && s[3] == 67 && s[4] == 72 {
            proof {
                assert(s@ =~= seq![80u8, 65u8, 84u8, 67u8, 72u8]);
            }
            Ok(Method::Patch)
        } else {
            Err(InvalidHttpMethod)
        }
    }
}

} // verus!
