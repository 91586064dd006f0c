use agent_browser_daemon::json::{json_of_value, push_member, value_of_json, Json};

const DOCUMENTS: [&str; 10] = [
    "null",
    "true",
    "0",
    "-7",
    "2.5",
    "\"a\\u0000\\n\\\"\"",
    "[]",
    "[1,[2,{\"a\":[]}],null]",
    "{}",
    "{\"a\":{\"b\":{\"c\":[true,false]}},\"z\":\"\"}",
];

#[test]
fn documents_are_written_as_serde_json_writes_them() {
    for text in DOCUMENTS {
        let value: serde_json::Value = serde_json::from_str(text).unwrap();
        let expected = serde_json::to_string(&value).unwrap();
        assert_eq!(Json::parse(text).unwrap().into_text(), expected);
        assert_eq!(json_of_value(value.clone()).into_text(), expected);
        assert_eq!(value_of_json(json_of_value(value.clone())), value);
    }
}

#[test]
fn what_cannot_be_read_is_refused_with_the_reason() {
    for text in ["", "{", "[1,]", "nul", "1 2", "{\"a\" 1}", "\"\n\""] {
        let expected = serde_json::from_str::<serde_json::Value>(text)
            .unwrap_err()
            .to_string();
        assert_eq!(Json::parse(text), Err(expected));
    }
}

#[test]
fn members_are_found_by_name() {
    let document = Json::parse(r#"{"a":1,"b":{"a":2},"a":3}"#).unwrap();
    assert_eq!(document.get("a").unwrap().as_whole(), Some(3));
    assert_eq!(
        document.get("b").unwrap().get("a").unwrap().as_whole(),
        Some(2)
    );
    assert!(document.get("c").is_none());
    assert!(Json::parse("[1]").unwrap().get("0").is_none());
    // Of two members with one name the later counts.
    let mut members: Vec<(String, Json)> = Vec::new();
    push_member(&mut members, "x", Json::Bool(false));
    push_member(&mut members, "y", Json::Null);
    push_member(&mut members, "x", Json::Bool(true));
    let document = Json::Object(members);
    assert_eq!(document.get("x").unwrap().as_bool(), Some(true));
    assert_eq!(document.into_text(), "{\"x\":true,\"y\":null}");
}

#[test]
fn values_are_told_by_their_kind() {
    assert_eq!(Json::parse("true").unwrap().as_bool(), Some(true));
    assert_eq!(Json::parse("\"true\"").unwrap().as_bool(), None);
    assert_eq!(Json::parse("\"x\"").unwrap().as_text(), Some("x"));
    assert_eq!(Json::parse("1").unwrap().as_text(), None);
    assert_eq!(Json::parse("-3").unwrap().as_whole(), Some(-3));
    assert_eq!(Json::parse("3.0").unwrap().as_whole(), None);
    assert_eq!(Json::parse("18446744073709551615").unwrap().as_whole(), None);
    assert_eq!(Json::parse("9223372036854775807").unwrap().as_whole(), Some(i64::MAX));
    assert_eq!(Json::whole(-5).into_text(), "-5");
    assert_eq!(Json::whole(i64::MAX).as_whole(), Some(i64::MAX));
    assert_eq!(Json::Null.as_whole(), None);
}

#[test]
fn plain_documents_are_read_back() {
    let nested = |depth: usize| format!("{}{}", "[".repeat(depth), "]".repeat(depth));
    for text in [
        nested(127),
        format!("{{\"a\":{}}}", nested(126)),
        "{\"\":\"\\u0001\\\\\u{2028}\u{10ffff}\",\"n\":[-9223372036854775808,0,9223372036854775807]}"
            .to_string(),
    ] {
        let written = Json::parse(&text).unwrap().into_text();
        assert!(!written.contains('\n'));
        assert_eq!(Json::parse(&written).unwrap(), Json::parse(&text).unwrap());
    }
    assert!(Json::parse(&nested(128)).is_err());
}
