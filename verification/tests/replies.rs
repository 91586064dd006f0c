use agent_browser_daemon::e2e::frames::reference_frame_path;
use agent_browser_daemon::e2e::literal::Literal;
use agent_browser_daemon::e2e::replies::{
    find_value, get_data, has_error_code, is_failure, is_success, node_has_attribute,
    reference_named,
};
use agent_browser_daemon::json::Json;

fn json(text: &str) -> Json {
    Json::parse(text).unwrap()
}

#[test]
fn success_and_failure_are_reported() {
    assert!(is_success(&json(r#"{"success":true}"#)));
    assert!(is_failure(&json(r#"{"success":false}"#)));
    for text in ["{}", r#"{"success":"true"}"#, r#"{"success":1}"#, "[]", "null"] {
        assert!(!is_success(&json(text)), "{text}");
        assert!(!is_failure(&json(text)), "{text}");
    }
    assert_eq!(*get_data(&json(r#"{"data":[1]}"#)), json("[1]"));
    assert!(has_error_code(&json(r#"{"success":false,"code":"E1"}"#), "E1"));
    assert!(!has_error_code(&json(r#"{"success":false,"code":"E2"}"#), "E1"));
    assert!(!has_error_code(&json(r#"{"success":true,"code":"E1"}"#), "E1"));
    assert!(!has_error_code(&json(r#"{"success":false}"#), "E1"));
}

#[test]
fn values_are_found_by_path() {
    let document = json(r#"{"a":{"b":[1]},"c":2}"#);
    let path = |names: &[&str]| names.iter().map(|s| s.to_string()).collect::<Vec<_>>();
    assert_eq!(find_value(&document, &path(&["a", "b"])), Some(&json("[1]")));
    assert_eq!(find_value(&document, &path(&[])), Some(&document));
    assert_eq!(find_value(&document, &path(&["a", "c"])), None);
    assert_eq!(find_value(&document, &path(&["c", "a"])), None);
}

#[test]
fn the_first_reference_of_a_name_is_taken() {
    let snapshot = json(
        r#"{"success":true,"data":{"refs":{
            "e3":{"name":"Save"},"e10":{"name":"Save"},"e2":{"name":"Open"},"e9":{"role":"x"}
        }}}"#,
    );
    // In the order of texts, where e10 comes before e3.
    assert_eq!(reference_named(&snapshot, "Save"), Some("e10".to_string()));
    assert_eq!(reference_named(&snapshot, "Open"), Some("e2".to_string()));
    assert_eq!(reference_named(&snapshot, "Close"), None);
    assert_eq!(reference_named(&json("{}"), "Save"), None);
    assert_eq!(reference_named(&json(r#"{"data":{"refs":[]}}"#), "Save"), None);
    // That is also the order in which serde_json hands members out.
    let value: serde_json::Value =
        serde_json::from_str(r#"{"e3":1,"e10":1,"é":1,"e":1,"Z":1,"😀":1,"￿":1}"#)
            .unwrap();
    let first = value.as_object().unwrap().keys().next().unwrap().clone();
    let refs: Vec<String> = value
        .as_object()
        .unwrap()
        .keys()
        .rev()
        .map(|key| format!("\"{key}\":{{\"name\":\"n\"}}"))
        .collect();
    let snapshot = json(&format!("{{\"data\":{{\"refs\":{{{}}}}}}}", refs.join(",")));
    assert_eq!(reference_named(&snapshot, "n"), Some(first));
}

#[test]
fn attributes_come_in_pairs() {
    let node = |list: &str| json(&format!("{{\"node\":{{\"attributes\":{list}}}}}"));
    assert!(node_has_attribute(&node(r#"["class","x","id","decoy"]"#), "id", "decoy"));
    // The second of one pair and the first of the next are no pair.
    assert!(!node_has_attribute(&node(r#"["class","id","decoy","x"]"#), "id", "decoy"));
    assert!(!node_has_attribute(&node(r#"["a","b","id"]"#), "id", "decoy"));
    assert!(!node_has_attribute(&node("[]"), "id", "decoy"));
    assert!(!node_has_attribute(&json("{}"), "id", "decoy"));
}

#[test]
fn frames_are_found_in_their_tree() {
    let tree = json(
        r#"{"frame":{"id":"top"},"childFrames":[
            {"frame":{"id":"a"},"childFrames":[{"frame":{"id":"a1"}}]},
            {"frame":{},"childFrames":[{"frame":{"id":"lost"}}]},
            {"frame":{"id":"b"},"childFrames":[{"frame":{"id":"b1"}},{"frame":{"id":"b2"}}]}
        ]}"#,
    );
    let path = |id: &str| reference_frame_path(&tree, id).map(|p| p.join("/"));
    assert_eq!(path("top").as_deref(), Some("top"));
    assert_eq!(path("a1").as_deref(), Some("top/a/a1"));
    assert_eq!(path("b2").as_deref(), Some("top/b/b2"));
    assert_eq!(path("lost"), None);
    assert_eq!(path("none"), None);
    assert_eq!(reference_frame_path(&json("[]"), "top"), None);
}

#[test]
fn literals_write_and_compare_documents() {
    let literal = Literal::record(vec![
        ("n".to_string(), Literal::Whole(-2)),
        ("b".to_string(), Literal::Truth(true)),
        (
            "l".to_string(),
            Literal::list(vec![Literal::word("x"), Literal::Whole(7)]),
        ),
    ]);
    assert_eq!(literal.to_json().into_text(), r#"{"b":true,"l":["x",7],"n":-2}"#);
    assert!(literal.fits_json(&literal.to_json()));
    assert!(literal.fits_json(&json(r#"{"l":["x",7],"n":-2,"b":true}"#)));
    for text in [
        r#"{"l":["x",7],"n":-2}"#,
        r#"{"l":["x",7],"n":-2,"b":true,"more":1}"#,
        r#"{"l":["x",7,7],"n":-2,"b":true}"#,
        r#"{"l":["x",7.0],"n":-2,"b":true}"#,
        r#"{"l":["y",7],"n":-2,"b":true}"#,
        r#"{"l":["x",7],"n":2,"b":true}"#,
        r#"{"l":["x",7],"n":-2,"b":"true"}"#,
        "[]",
    ] {
        assert!(!literal.fits_json(&json(text)), "{text}");
    }
    assert!(!Literal::Truth(false).fits_json(&json("true")));
    assert!(!Literal::Whole(1).fits_json(&json("\"1\"")));
    assert!(Literal::list(vec![]).fits_json(&json("[]")));
    assert!(Literal::record(vec![]).fits_json(&json("{}")));
}
