//! Parsing a raw byte buffer into a structured request: method, path, and
//! optional query string. The buffer must hold a request line of the form
//! `<METHOD> <PATH>[?<QUERY>] <PROTOCOL>`; anything after the first line is
//! ignored.

use vstd::prelude::*;
use vstd::utf8::{decode_utf8, valid_utf8};
use crate::method::{spec_parse_method, Method};
use crate::query_str::{spec_group, spec_pairs, QueryString};
use crate::text::{find_char, lemma_spec_find, spec_find, str_eq, utf8_to_str};

verus! {

broadcast use vstd::string::group_string_axioms;

/// Why a buffer was rejected: a missing token, bytes that are not text, a
/// protocol other than the one supported literal, or an unknown method.
#[derive(Clone, Copy, PartialEq, Eq, Structural, Debug)]
pub enum ParseErrorInvalid {
    Request,
    Encoding,
    Protocol,
    Method,
}

/// The stable human-readable message of each rejection.
pub open spec fn spec_message(e: ParseErrorInvalid) -> Seq<char> {
    match e {
        ParseErrorInvalid::Request => "Invalid Request"@,
        ParseErrorInvalid::Encoding => "Invalid Encoding"@,
        ParseErrorInvalid::Protocol => "Invalid Protocol"@,
        ParseErrorInvalid::Method => "Invalid Method"@,
    }
}

impl ParseErrorInvalid {
    /// The message a response writer shows for this rejection.
    pub fn message(&self) -> (r: &str)
        ensures
            r@ == spec_message(*self),
    {
        match self {
            ParseErrorInvalid::Request => "Invalid Request",
            ParseErrorInvalid::Encoding => "Invalid Encoding",
            ParseErrorInvalid::Protocol => "Invalid Protocol",
            ParseErrorInvalid::Method => "Invalid Method",
        }
    }
}

/// A token delimiter of the request line: space or carriage return. A line
/// feed is deliberately no delimiter; a bare-`\n` buffer leaves the `\n`
/// inside the following token.
pub open spec fn is_delim(c: char) -> bool {
    c == ' ' || c == '\r'
}

/// Index of the first delimiter in `s`, or `s.len()` when there is none.
pub open spec fn spec_find_delim(s: Seq<char>) -> int
    decreases s.len(),
{
    if s.len() == 0 {
        0
    } else if is_delim(s[0]) {
        0
    } else {
        1 + spec_find_delim(s.drop_first())
    }
}

/// `spec_find_delim` names the first delimiter: in range and on a delimiter
/// when one occurs, everything before it no delimiter, and `s.len()` exactly
/// when no delimiter occurs.
pub proof fn lemma_spec_find_delim(s: Seq<char>)
    ensures
        0 <= spec_find_delim(s) <= s.len(),
        spec_find_delim(s) < s.len() ==> is_delim(s[spec_find_delim(s)]),
        forall|j: int| 0 <= j < spec_find_delim(s) ==> !is_delim(s[j]),
    decreases s.len(),
{
    if s.len() == 0 {
    } else if is_delim(s[0]) {
    } else {
        lemma_spec_find_delim(s.drop_first());
        assert forall|j: int| 0 <= j < spec_find_delim(s) implies !is_delim(s[j]) by {
            if j > 0 {
                assert(s.drop_first()[j - 1] == s[j]);
            }
        }
    }
}

/// Conversely, a position before which no delimiter occurs, and which holds
/// one unless it is the end, is exactly `spec_find_delim`.
pub proof fn lemma_spec_find_delim_at(s: Seq<char>, i: int)
    requires
        0 <= i <= s.len(),
        forall|j: int| 0 <= j < i ==> !is_delim(s[j]),
        i < s.len() ==> is_delim(s[i]),
    ensures
        spec_find_delim(s) == i,
    decreases s.len(),
{
    if s.len() == 0 {
    } else if is_delim(s[0]) {
        assert(i == 0);
    } else {
        assert(i >= 1);
        assert forall|j: int| 0 <= j < i - 1 implies !is_delim(s.drop_first()[j]) by {
            assert(s.drop_first()[j] == s[j + 1]);
        }
        assert(i - 1 < s.drop_first().len() ==> is_delim(s.drop_first()[i - 1]));
        lemma_spec_find_delim_at(s.drop_first(), i - 1);
    }
}

/// The next token of `s` and the remainder after the delimiter, or nothing
/// when `s` holds no delimiter at all.
pub open spec fn spec_next_word(s: Seq<char>) -> Option<(Seq<char>, Seq<char>)> {
    let i = spec_find_delim(s);
    if i < s.len() {
        Some((s.take(i), s.skip(i + 1)))
    } else {
        None
    }
}

/// Splits `request` at its first space or carriage return: the token before
/// the delimiter, and everything after it.
pub fn get_next_word(request: &str) -> (r: Option<(&str, &str)>)
    ensures
        match r {
            Some(p) => spec_next_word(request@) matches Some(q) && p.0@ == q.0 && p.1@ == q.1,
            None => spec_next_word(request@) is None,
        },
{
    let n = request.unicode_len();
    let mut i: usize = 0;
    while i < n
        invariant
            0 <= i <= n,
            n == request@.len(),
            forall|j: int| 0 <= j < i ==> !is_delim(request@[j]),
        decreases n - i,
    {
        let c = request.get_char(i);
        if c == ' ' || c == '\r' {
            proof {
                lemma_spec_find_delim_at(request@, i as int);
            }
            let token = request.substring_char(0, i);
            let rest = request.substring_char(i + 1, n);
            return Some((token, rest));
        }
        i += 1;
    }
    proof {
        lemma_spec_find_delim_at(request@, n as int);
    }
    None
}

/// What parsing the buffer must yield, as a function of the bytes alone: on
/// success the path characters, the raw query text when the path held a `?`,
/// and the method; otherwise the one rejection the first failing step gives.
pub open spec fn spec_parse(bytes: Seq<u8>) -> Result<
    (Seq<char>, Option<Seq<char>>, Method),
    ParseErrorInvalid,
> {
    if !valid_utf8(bytes) {
        Err(ParseErrorInvalid::Encoding)
    } else {
        let text = decode_utf8(bytes);
        match spec_next_word(text) {
            None => Err(ParseErrorInvalid::Request),
            Some((method_tok, rest1)) => match spec_next_word(rest1) {
                None => Err(ParseErrorInvalid::Request),
                Some((path_tok, rest2)) => match spec_next_word(rest2) {
                    None => Err(ParseErrorInvalid::Request),
                    Some((protocol, _)) => if protocol != "HTTP/1.1"@ {
                        Err(ParseErrorInvalid::Protocol)
                    } else {
                        match spec_parse_method(method_tok) {
                            None => Err(ParseErrorInvalid::Method),
                            Some(m) => {
                                let qi = spec_find(path_tok, '?');
                                if qi < path_tok.len() {
                                    Ok((path_tok.take(qi), Some(path_tok.skip(qi + 1)), m))
                                } else {
                                    Ok((path_tok, None, m))
                                }
                            },
                        }
                    },
                },
            },
        }
    }
}

/// A structured view over one request line: the path, the query string when
/// the path held a `?`, and the method.
#[derive(Debug)]
pub struct Request {
    pub path: String,
    pub query_str: Option<QueryString>,
    pub method: Method,
}

/// `req` carries exactly what a successful parse of `bytes` must produce.
pub open spec fn parsed_ok(bytes: Seq<u8>, req: Request) -> bool {
    match spec_parse(bytes) {
        Ok(t) => {
            &&& req.path@ == t.0
            &&& req.method == t.2
            &&& match t.1 {
                None => req.query_str is None,
                Some(rawq) => req.query_str matches Some(q) && q@ == spec_group(spec_pairs(rawq)),
            }
        },
        Err(_) => false,
    }
}

impl Request {
    /// Well-formed: the query string, when present, has well-formed storage.
    pub open spec fn wf(&self) -> bool {
        self.query_str matches Some(q) ==> q.wf()
    }

    /// The path, with the `?` and everything after it split off.
    pub fn path(&self) -> (r: &str)
        ensures
            r@ == self.path@,
    {
        self.path.as_str()
    }

    /// The request's method.
    pub fn method(&self) -> (r: &Method)
        ensures
            *r == self.method,
    {
        &self.method
    }

    /// The query string, when the path held a `?`.
    pub fn query_str(&self) -> (r: Option<&QueryString>)
        ensures
            match r {
                Some(q) => self.query_str matches Some(q2) && *q == q2,
                None => self.query_str is None,
            },
    {
        self.query_str.as_ref()
    }

    /// Parses one request line out of `buf`. Every failing step is terminal
    /// and reports its own rejection: bytes that are not UTF-8, fewer than
    /// three tokens, a protocol other than `HTTP/1.1`, an unknown method.
    pub fn try_from(buf: &[u8]) -> (r: Result<Request, ParseErrorInvalid>)
        ensures
            r matches Ok(req) ==> spec_parse(buf@) is Ok && parsed_ok(buf@, req) && req.wf(),
            r matches Err(e) ==> spec_parse(buf@) matches Err(e2) && e == e2,
    {
        let text = match utf8_to_str(buf) {
            Some(t) => t,
            None => {
                return Err(ParseErrorInvalid::Encoding);
            },
        };
        let (method_tok, rest1) = match get_next_word(text) {
            Some(p) => p,
            None => {
                return Err(ParseErrorInvalid::Request);
            },
        };
        let (path_tok, rest2) = match get_next_word(rest1) {
            Some(p) => p,
            None => {
                return Err(ParseErrorInvalid::Request);
            },
        };
        let (protocol, _rest3) = match get_next_word(rest2) {
            Some(p) => p,
            None => {
                return Err(ParseErrorInvalid::Request);
            },
        };
        if !str_eq(protocol, "HTTP/1.1") {
            return Err(ParseErrorInvalid::Protocol);
        }
        let method = match Method::parse(method_tok) {
            Ok(m) => m,
            Err(_) => {
                return Err(ParseErrorInvalid::Method);
            },
        };
        let n = path_tok.unicode_len();
        match find_char(path_tok, '?') {
            Some(i) => {
                let query = QueryString::from(path_tok.substring_char(i + 1, n));
                let path = path_tok.substring_char(0, i).to_owned();
                Ok(Request { path, query_str: Some(query), method })
            },
            None => Ok(Request { path: path_tok.to_owned(), query_str: None, method }),
        }
    }
}

/// A buffer that is not valid text is rejected as such, before any
/// tokenization: the encoding error precedes every other rejection.
pub proof fn lemma_invalid_encoding_rejected(bytes: Seq<u8>)
    requires
        !valid_utf8(bytes),
    ensures
        spec_parse(bytes) == Err::<(Seq<char>, Option<Seq<char>>, Method), _>(
            ParseErrorInvalid::Encoding,
        ),
{
}

/// A successful parse never leaves a `?`, or anything after it, in the path.
pub proof fn lemma_path_holds_no_query(bytes: Seq<u8>)
    ensures
        spec_parse(bytes) matches Ok(t) ==> forall|j: int| 0 <= j < t.0.len() ==> t.0[j] != '?',
{
    if spec_parse(bytes) is Ok {
        let text = decode_utf8(bytes);
        let rest1 = spec_next_word(text).unwrap().1;
        let path_tok = spec_next_word(rest1).unwrap().0;
        lemma_spec_find(path_tok, '?');
        let qi = spec_find(path_tok, '?');
        if qi < path_tok.len() {
            assert forall|j: int| 0 <= j < path_tok.take(qi).len() implies path_tok.take(qi)[j]
                != '?' by {
                assert(path_tok.take(qi)[j] == path_tok[j]);
            }
        }
    }
}

/// Parsing is a pure function of the bytes: two results that both satisfy a
/// successful parse of the same buffer agree structurally — same path, same
/// method, and the same query-string view.
pub proof fn lemma_parse_deterministic(bytes: Seq<u8>, r1: Request, r2: Request)
    requires
        parsed_ok(bytes, r1),
        parsed_ok(bytes, r2),
    ensures
        r1.path@ == r2.path@,
        r1.method == r2.method,
        r1.query_str is Some <==> r2.query_str is Some,
        r1.query_str is Some ==> r1.query_str.unwrap()@ == r2.query_str.unwrap()@,
{
}

} // verus!
