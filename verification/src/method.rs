//! The closed set of HTTP verbs a request line may carry.

use vstd::prelude::*;
use crate::text::str_eq;

verus! {

broadcast use vstd::string::group_string_axioms;

/// One of the nine recognized HTTP verbs. A value exists only for a token
/// that matched its uppercase name exactly; there is no catch-all variant.
#[derive(Clone, Copy, PartialEq, Eq, Structural, Debug)]
pub enum Method {
    Get,
    Delete,
    Post,
    Put,
    Head,
    Connect,
    Options,
    Trace,
    Patch,
}

/// Rejection of a token that is not one of the nine recognized verbs.
#[derive(Clone, Copy, PartialEq, Eq, Structural, Debug)]
pub struct MethodError;

/// The canonical uppercase token of each verb.
pub open spec fn spec_method_token(m: Method) -> Seq<char> {
    match m {
        Method::Get => "GET"@,
        Method::Delete => "DELETE"@,
        Method::Post => "POST"@,
        Method::Put => "PUT"@,
        Method::Head => "HEAD"@,
        Method::Connect => "CONNECT"@,
        Method::Options => "OPTIONS"@,
        Method::Trace => "TRACE"@,
        Method::Patch => "PATCH"@,
    }
}

/// The verb whose token is exactly `s`, or nothing when `s` matches none.
pub open spec fn spec_parse_method(s: Seq<char>) -> Option<Method> {
    if s == "GET"@ {
        Some(Method::Get)
    } else if s == "DELETE"@ {
        Some(Method::Delete)
    } else if s == "POST"@ {
        Some(Method::Post)
    } else if s == "PUT"@ {
        Some(Method::Put)
    } else if s == "HEAD"@ {
        Some(Method::Head)
    } else if s == "CONNECT"@ {
        Some(Method::Connect)
    } else if s == "OPTIONS"@ {
        Some(Method::Options)
    } else if s == "TRACE"@ {
        Some(Method::Trace)
    } else if s == "PATCH"@ {
        Some(Method::Patch)
    } else {
        None
    }
}

impl Method {
    /// Maps a token to its verb; any other token — lowercase forms, unknown
    /// words, the empty string — is rejected.
    pub fn parse(token: &str) -> (r: Result<Method, MethodError>)
        ensures
            match r {
                Ok(m) => spec_parse_method(token@) == Some(m),
                Err(_) => spec_parse_method(token@) is None,
            },
    {
        if str_eq(token, "GET") {
            Ok(Method::Get)
        } else if str_eq(token, "DELETE") {
            Ok(Method::Delete)
        } else if str_eq(token, "POST") {
            Ok(Method::Post)
        } else if str_eq(token, "PUT") {
            Ok(Method::Put)
        } else if str_eq(token, "HEAD") {
            Ok(Method::Head)
        } else if str_eq(token, "CONNECT") {
            Ok(Method::Connect)
        } else if str_eq(token, "OPTIONS") {
            Ok(Method::Options)
        } else if str_eq(token, "TRACE") {
            Ok(Method::Trace)
        } else if str_eq(token, "PATCH") {
            Ok(Method::Patch)
        } else {
            Err(MethodError)
        }
    }
}

/// Every verb's own token parses back to that verb: the mapping between the
/// nine verbs and their tokens is a bijection.
pub proof fn lemma_method_token_parses(m: Method)
    ensures
        spec_parse_method(spec_method_token(m)) == Some(m),
{
    reveal_strlit("GET");
    reveal_strlit("DELETE");
    reveal_strlit("POST");
    reveal_strlit("PUT");
    reveal_strlit("HEAD");
    reveal_strlit("CONNECT");
    reveal_strlit("OPTIONS");
    reveal_strlit("TRACE");
    reveal_strlit("PATCH");
    assert("GET"@.len() == 3);
    assert("DELETE"@.len() == 6);
    assert("POST"@.len() == 4);
    assert("PUT"@.len() == 3);
    assert("HEAD"@.len() == 4);
    assert("CONNECT"@.len() == 7);
    assert("OPTIONS"@.len() == 7);
    assert("TRACE"@.len() == 5);
    assert("PATCH"@.len() == 5);
    assert("GET"@[0] == 'G' && "PUT"@[0] == 'P');
    assert("POST"@[0] == 'P' && "HEAD"@[0] == 'H');
    assert("TRACE"@[0] == 'T' && "PATCH"@[0] == 'P');
    assert("CONNECT"@[0] == 'C' && "OPTIONS"@[0] == 'O');
}

/// A token that is no verb's own token parses to nothing.
pub proof fn lemma_unknown_token_rejected(s: Seq<char>)
    requires
        forall|m: Method| spec_method_token(m) != s,
    ensures
        spec_parse_method(s) is None,
{
    assert(spec_method_token(Method::Get) != s);
    assert(spec_method_token(Method::Delete) != s);
    assert(spec_method_token(Method::Post) != s);
    assert(spec_method_token(Method::Put) != s);
    assert(spec_method_token(Method::Head) != s);
    assert(spec_method_token(Method::Connect) != s);
    assert(spec_method_token(Method::Options) != s);
    assert(spec_method_token(Method::Trace) != s);
    assert(spec_method_token(Method::Patch) != s);
}

} // verus!
