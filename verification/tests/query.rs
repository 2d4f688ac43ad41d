use http_request::{QueryString, Value};

#[test]
fn keys_without_equals_get_empty_values() {
    let q = QueryString::from("a&b=&c=1");
    match q.get("a").unwrap() {
        Value::Single(v) => assert_eq!(v, ""),
        _ => panic!("a should be single-valued"),
    }
    match q.get("b").unwrap() {
        Value::Single(v) => assert_eq!(v, ""),
        _ => panic!("b should be single-valued"),
    }
    match q.get("c").unwrap() {
        Value::Single(v) => assert_eq!(v, "1"),
        _ => panic!("c should be single-valued"),
    }
    assert!(q.get("d").is_none());
}

#[test]
fn repeated_key_accumulates_in_encounter_order() {
    let q = QueryString::from("k=1&k=2&k=3");
    match q.get("k").unwrap() {
        Value::Multiple(vs) => {
            assert_eq!(vs.len(), 3);
            assert_eq!(vs[0], "1");
            assert_eq!(vs[1], "2");
            assert_eq!(vs[2], "3");
        }
        _ => panic!("k should be multi-valued"),
    }
}

#[test]
fn entries_keep_first_encounter_order() {
    let q = QueryString::from("b=2&a=1&b=3&c=");
    let keys: Vec<&str> = q.entries.iter().map(|e| e.0.as_str()).collect();
    assert_eq!(keys, ["b", "a", "c"]);
}

#[test]
fn value_with_equals_inside_is_kept_verbatim() {
    // Only the first `=` of a piece splits key from value.
    let q = QueryString::from("k=a=b");
    match q.get("k").unwrap() {
        Value::Single(v) => assert_eq!(v, "a=b"),
        _ => panic!("k should be single-valued"),
    }
}

#[test]
fn empty_raw_text_holds_one_empty_key() {
    let q = QueryString::from("");
    match q.get("").unwrap() {
        Value::Single(v) => assert_eq!(v, ""),
        _ => panic!("the empty key should be single-valued"),
    }
}
