use flashwright::client::json_line;
use flashwright::error::Error;
use flashwright::json::Json;

fn parse(text: &str) -> Json {
    Json::parse(text).unwrap()
}

#[test]
fn documents_are_read_and_written() {
    for text in ["null", "true", "[]", "{}", "[1,-2,3.5]", "{\"a\":[{\"b\":\"c\"}]}", "\"é\\n\""] {
        assert_eq!(parse(text).into_text(), text);
    }
    assert_eq!(parse(" { \"b\" : 1 , \"a\" : 2 } ").into_text(), "{\"a\":2,\"b\":1}");
}

#[test]
fn later_member_counts() {
    let json = parse("{\"a\":1,\"a\":2}");
    assert_eq!(json.get("a").unwrap().as_u64(), Some(2));
    let built = Json::Object(vec![
        ("k".to_string(), Json::from_number(1)),
        ("k".to_string(), Json::from_number(2)),
    ]);
    assert_eq!(built.get("k").unwrap().as_u64(), Some(2));
    assert_eq!(built.into_text(), "{\"k\":2}");
}

#[test]
fn bad_documents_are_refused() {
    match Json::parse("{") {
        Err(Error::Other(message)) => assert!(message.starts_with("EOF while parsing")),
        other => panic!("{:?}", other),
    }
    assert!(Json::parse("").is_err());
    assert!(Json::parse("1 2").is_err());
}

#[test]
fn members_are_found() {
    let json = parse("{\"s\":\"x\",\"n\":7,\"l\":[1],\"f\":false,\"m\":-1,\"d\":1.5}");
    assert_eq!(json.get_str("s"), Some("x"));
    assert_eq!(json.get_str("n"), None);
    assert_eq!(json.get_str("missing"), None);
    assert_eq!(json.get("n").unwrap().as_u64(), Some(7));
    assert_eq!(json.get("m").unwrap().as_u64(), None);
    assert_eq!(json.get("d").unwrap().as_u64(), None);
    assert_eq!(json.get("l").unwrap().as_array().unwrap().len(), 1);
    assert!(json.get("s").unwrap().as_array().is_none());
    assert!(json.get("f").unwrap().is_false());
    assert!(!json.get("n").unwrap().is_false());
    assert!(parse("[1]").get("0").is_none());
    assert_eq!(json.clone().take("l").unwrap().into_text(), "[1]");
    assert!(json.clone().take("missing").is_none());
    assert_eq!(json.clone(), json);
}

#[test]
fn largest_number_fits() {
    assert_eq!(parse("18446744073709551615").as_u64(), Some(u64::MAX));
    assert_eq!(parse("18446744073709551616").as_u64(), None);
    assert_eq!(Json::from_number(u64::MAX).into_text(), "18446744073709551615");
}

#[test]
fn numbers_become_floating_point() {
    assert_eq!(parse("3").into_float().into_text(), "3.0");
    assert_eq!(parse("2.25").into_float().into_text(), "2.25");
    assert_eq!(parse("\"3\"").into_float().into_text(), "0.0");
    assert_eq!(Json::Null.into_float().into_text(), "0.0");
}

#[test]
fn lines_hold_one_document() {
    let json = parse("{\"text\":\"a\\nb\"}");
    let line = json_line(json.clone());
    assert_eq!(line, "{\"text\":\"a\\nb\"}\n");
    assert_eq!(line.matches('\n').count(), 1);
    assert_eq!(Json::parse(&line), Ok(json));
}

#[test]
fn deep_documents_read_back_up_to_the_limit() {
    let nested = |depth: usize| {
        let mut json = Json::Null;
        for _ in 0..depth {
            json = Json::List(vec![json]);
        }
        json
    };
    let line = json_line(nested(127));
    assert_eq!(Json::parse(&line), Ok(nested(127)));
    assert!(Json::parse(&json_line(nested(128))).is_err());
}

#[test]
fn later_member_takes_the_place_of_earlier_ones() {
    let member = |name: &str, n: u64| (name.to_string(), Json::from_number(n));
    let built = Json::Object(vec![
        member("a", 1),
        member("b", 2),
        member("a", 3),
        member("c", 4),
        member("a", 5),
        member("b", 6),
    ]);
    assert_eq!(built.into_text(), "{\"a\":5,\"b\":6,\"c\":4}");
}
