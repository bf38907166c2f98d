use dghub::json::{BadJson, Json, JsonNumber, Members};

fn rewritten(text: &str) -> String {
    Json::parse(text).unwrap().to_text()
}

#[test]
fn scalars_are_read_and_written() {
    assert_eq!(rewritten("null"), "null");
    assert_eq!(rewritten(" true "), "true");
    assert_eq!(rewritten("false"), "false");
    assert_eq!(rewritten("\"a\\u00e9\\n\\\"\""), "\"aé\\n\\\"\"");
    assert_eq!(rewritten("0"), "0");
    assert_eq!(rewritten("18446744073709551615"), "18446744073709551615");
    assert_eq!(rewritten("-9223372036854775808"), "-9223372036854775808");
}

#[test]
fn floats_are_written_as_read() {
    assert_eq!(rewritten("1.5"), "1.5");
    assert_eq!(rewritten("1.50"), "1.5");
    assert_eq!(rewritten("-0.25"), "-0.25");
    assert_eq!(rewritten("2.0"), "2.0");
    assert_eq!(rewritten("18446744073709551616"), rewritten("1.8446744073709552e19"));
    for text in ["1.5", "1e300", "-0.0", "0.1", "3.0e-8", "123456789.125"] {
        let once = rewritten(text);
        assert_eq!(rewritten(&once), once);
    }
}

#[test]
fn nested_values_are_read_and_written() {
    assert_eq!(
        rewritten("{\"b\":[1,-2,{\"y\":null,\"x\":2.5}],\"a\":{\"k\":\"v\"},\"c\":[]}"),
        "{\"a\":{\"k\":\"v\"},\"b\":[1,-2,{\"x\":2.5,\"y\":null}],\"c\":[]}"
    );
    assert_eq!(rewritten("{}"), "{}");
    assert_eq!(rewritten("[[[]]]"), "[[[]]]");
}

#[test]
fn the_later_of_two_members_stays() {
    assert_eq!(rewritten("{\"a\":1,\"a\":2}"), "{\"a\":2}");
    let members = Members::new().with("a", Json::integer(1)).with("a", Json::integer(2));
    assert_eq!(members.get("a").unwrap().as_i64(), Some(2));
    assert!(members.get("b").is_none());
    assert_eq!(Json::Object(members).to_text(), "{\"a\":2}");
}

#[test]
fn what_is_not_json_is_refused() {
    for text in ["", "abc", "{", "{\"a\":}", "[1,]", "1 2", "\"a", "nul"] {
        assert_eq!(Json::parse(text).unwrap_err(), BadJson);
    }
}

#[test]
fn integers_by_range() {
    let big = Json::parse("9223372036854775808").unwrap();
    assert_eq!(big.as_u64(), Some(9223372036854775808));
    assert_eq!(big.as_i64(), None);
    let negative = Json::parse("-3").unwrap();
    assert_eq!(negative.as_u64(), None);
    assert_eq!(negative.as_i64(), Some(-3));
    let small = Json::parse("7").unwrap();
    assert_eq!(small.as_u64(), Some(7));
    assert_eq!(small.as_i64(), Some(7));
    let float = Json::parse("7.0").unwrap();
    assert_eq!(float.as_u64(), None);
    assert_eq!(float.as_i64(), None);
    assert_eq!(Json::integer(5).as_u64(), Some(5));
    assert_eq!(Json::integer(-5).as_u64(), None);
}

#[test]
fn numbers_by_their_text() {
    assert_eq!(Json::parse("2").unwrap().as_number_text(), Some("2".to_owned()));
    assert_eq!(Json::parse("-2").unwrap().as_number_text(), Some("-2".to_owned()));
    assert_eq!(Json::parse("2.50").unwrap().as_number_text(), Some("2.5".to_owned()));
    assert_eq!(Json::text("2").as_number_text(), None);
}

#[test]
fn members_are_found() {
    let json = Json::parse("{\"op\":\"ping\",\"t\":5}").unwrap();
    assert_eq!(json.get_str("op"), Some("ping"));
    assert_eq!(json.get("t").unwrap().as_u64(), Some(5));
    assert_eq!(json.get_str("t"), None);
    assert!(json.get("x").is_none());
    assert!(Json::text("op").get("op").is_none());
    assert!(json.as_object().is_some());
    assert!(Json::Null.as_object().is_none());
    assert_eq!(json.as_str(), None);
    assert_eq!(Json::Bool(true).as_bool(), Some(true));
    assert_eq!(json.as_bool(), None);
}

#[test]
fn floats_by_their_text() {
    assert_eq!(Json::float("2").to_text(), "2.0");
    assert_eq!(Json::float("1.50").to_text(), "1.5");
    assert_eq!(Json::float("-3").to_text(), "-3.0");
    assert_eq!(Json::float("NaN").to_text(), "null");
    assert_eq!(Json::float("inf").to_text(), "null");
    assert_eq!(Json::float("abc").to_text(), "null");
    assert_eq!(Json::Number(JsonNumber::Unsigned(3)).to_text(), "3");
}

#[test]
fn copies_are_equal() {
    let json = Json::parse("{\"a\":[1,2.5,\"x\",{\"b\":false}],\"c\":null}").unwrap();
    assert_eq!(json.clone().to_text(), json.to_text());
    assert_eq!(json.clone().to_text(), "{\"a\":[1,2.5,\"x\",{\"b\":false}],\"c\":null}");
}
