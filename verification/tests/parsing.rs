use http_request::{Method, ParseErrorInvalid, Request, Value};

#[test]
fn round_trip_multi_value_query() {
    let buf = "GET /a/b?x=1&y=2&x=3 HTTP/1.1\r\n".as_bytes();
    let req = Request::try_from(buf).unwrap();
    assert_eq!(req.path(), "/a/b");
    assert_eq!(*req.method(), Method::Get);
    let q = req.query_str().unwrap();
    match q.get("x").unwrap() {
        Value::Multiple(vs) => {
            assert_eq!(vs.len(), 2);
            assert_eq!(vs[0], "1");
            assert_eq!(vs[1], "3");
        }
        _ => panic!("x should be multi-valued"),
    }
    match q.get("y").unwrap() {
        Value::Single(v) => assert_eq!(v, "2"),
        _ => panic!("y should be single-valued"),
    }
}

#[test]
fn plain_path_has_no_query() {
    let req = Request::try_from("GET /path HTTP/1.1\r\n".as_bytes()).unwrap();
    assert_eq!(req.path(), "/path");
    assert_eq!(*req.method(), Method::Get);
    assert!(req.query_str().is_none());
}

#[test]
fn http_1_0_is_unsupported() {
    let err = Request::try_from("GET /path HTTP/1.0\r\n".as_bytes()).unwrap_err();
    assert_eq!(err, ParseErrorInvalid::Protocol);
}

#[test]
fn unknown_method_is_rejected() {
    let err = Request::try_from("FOO /path HTTP/1.1\r\n".as_bytes()).unwrap_err();
    assert_eq!(err, ParseErrorInvalid::Method);
}

#[test]
fn missing_protocol_token_is_malformed() {
    let err = Request::try_from("GET /path".as_bytes()).unwrap_err();
    assert_eq!(err, ParseErrorInvalid::Request);
}

#[test]
fn missing_path_and_protocol_is_malformed() {
    let err = Request::try_from("GET ".as_bytes()).unwrap_err();
    assert_eq!(err, ParseErrorInvalid::Request);
}

#[test]
fn invalid_utf8_is_an_encoding_error() {
    let err = Request::try_from(&[0xff, 0xfe, 0x20][..]).unwrap_err();
    assert_eq!(err, ParseErrorInvalid::Encoding);
}

#[test]
fn invalid_utf8_after_valid_prefix_is_an_encoding_error() {
    let mut buf = b"GET /path HTTP/1.1\r\n".to_vec();
    buf.push(0xc0);
    let err = Request::try_from(&buf[..]).unwrap_err();
    assert_eq!(err, ParseErrorInvalid::Encoding);
}

#[test]
fn repeated_parses_agree() {
    let buf = "POST /a?k=v&k=w HTTP/1.1\r\n".as_bytes();
    let one = Request::try_from(buf).unwrap();
    let two = Request::try_from(buf).unwrap();
    assert_eq!(one.path(), two.path());
    assert_eq!(*one.method(), *two.method());
    let q1 = one.query_str().unwrap();
    let q2 = two.query_str().unwrap();
    match (q1.get("k").unwrap(), q2.get("k").unwrap()) {
        (Value::Multiple(a), Value::Multiple(b)) => assert_eq!(a, b),
        _ => panic!("k should be multi-valued in both parses"),
    }
}

#[test]
fn bare_line_feed_is_no_delimiter() {
    // With bare `\n` endings the protocol token swallows the line feed and
    // the following header text up to the next space, so the literal
    // comparison fails as an unsupported protocol.
    let err = Request::try_from("GET /path HTTP/1.1\nHost: x\r\n".as_bytes()).unwrap_err();
    assert_eq!(err, ParseErrorInvalid::Protocol);
    // Without any later delimiter the protocol token never ends at all.
    let err = Request::try_from("GET /path HTTP/1.1\n".as_bytes()).unwrap_err();
    assert_eq!(err, ParseErrorInvalid::Request);
}

#[test]
fn multibyte_path_is_decoded() {
    let req = Request::try_from("GET /h\u{e9}llo/\u{4e16}\u{754c} HTTP/1.1\r\n".as_bytes()).unwrap();
    assert_eq!(req.path(), "/héllo/世界");
}

#[test]
fn trailing_bytes_after_first_line_are_ignored() {
    let buf = "DELETE /x HTTP/1.1\r\nHost: example\r\n\r\n".as_bytes();
    let req = Request::try_from(buf).unwrap();
    assert_eq!(req.path(), "/x");
    assert_eq!(*req.method(), Method::Delete);
}

#[test]
fn empty_query_text_yields_one_empty_key() {
    let req = Request::try_from("GET /p? HTTP/1.1\r\n".as_bytes()).unwrap();
    assert_eq!(req.path(), "/p");
    let q = req.query_str().unwrap();
    match q.get("").unwrap() {
        Value::Single(v) => assert_eq!(v, ""),
        _ => panic!("the empty key should be single-valued"),
    }
}
