use http_request::{get_next_word, Method, ParseErrorInvalid};

#[test]
fn all_nine_verbs_parse_to_their_variant() {
    assert_eq!(Method::parse("GET").unwrap(), Method::Get);
    assert_eq!(Method::parse("DELETE").unwrap(), Method::Delete);
    assert_eq!(Method::parse("POST").unwrap(), Method::Post);
    assert_eq!(Method::parse("PUT").unwrap(), Method::Put);
    assert_eq!(Method::parse("HEAD").unwrap(), Method::Head);
    assert_eq!(Method::parse("CONNECT").unwrap(), Method::Connect);
    assert_eq!(Method::parse("OPTIONS").unwrap(), Method::Options);
    assert_eq!(Method::parse("TRACE").unwrap(), Method::Trace);
    assert_eq!(Method::parse("PATCH").unwrap(), Method::Patch);
}

#[test]
fn case_variants_and_unknown_tokens_fail() {
    assert!(Method::parse("get").is_err());
    assert!(Method::parse("Get").is_err());
    assert!(Method::parse("").is_err());
    assert!(Method::parse("GETS").is_err());
    assert!(Method::parse("FOO").is_err());
    assert!(Method::parse("GET ").is_err());
}

#[test]
fn next_word_splits_at_space_and_carriage_return() {
    let (tok, rest) = get_next_word("GET /x HTTP/1.1\r\nrest").unwrap();
    assert_eq!(tok, "GET");
    assert_eq!(rest, "/x HTTP/1.1\r\nrest");
    let (tok, rest) = get_next_word("HTTP/1.1\r\n").unwrap();
    assert_eq!(tok, "HTTP/1.1");
    assert_eq!(rest, "\n");
    assert!(get_next_word("token-without-delimiter").is_none());
    assert!(get_next_word("").is_none());
    let (tok, rest) = get_next_word(" leading").unwrap();
    assert_eq!(tok, "");
    assert_eq!(rest, "leading");
}

#[test]
fn each_rejection_has_its_message() {
    assert_eq!(ParseErrorInvalid::Request.message(), "Invalid Request");
    assert_eq!(ParseErrorInvalid::Encoding.message(), "Invalid Encoding");
    assert_eq!(ParseErrorInvalid::Protocol.message(), "Invalid Protocol");
    assert_eq!(ParseErrorInvalid::Method.message(), "Invalid Method");
}
