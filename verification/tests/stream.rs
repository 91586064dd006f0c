use agent_browser_daemon::e2e::media::jpeg_dimensions;
use agent_browser_daemon::e2e::profile::{
    auth_profile_name, auth_profile_name_since, load_binding, native_test_fixture_path,
    restore_state_files,
    unique_auth_profile_name,
};
use agent_browser_daemon::e2e::stream::{
    awaited_url, is_url_message, navigation_ready, next_stream_url, shows_active_tab, stray_url,
    stream_tabs, stream_url, StreamVerdict, TabsMessage, UrlMessage,
};
use agent_browser_daemon::json::Json;

fn json(text: &str) -> Json {
    Json::parse(text).unwrap()
}

#[test]
fn addresses_in_stream_messages() {
    assert_eq!(
        next_stream_url(r#"{"type":"url","url":"http://a/"}"#),
        UrlMessage::Url("http://a/".to_string())
    );
    assert_eq!(next_stream_url(r#"{"type":"tabs","url":"x"}"#), UrlMessage::Other);
    assert_eq!(next_stream_url(r#"{"type":"url","url":1}"#), UrlMessage::Broken);
    assert_eq!(next_stream_url(r#"{"type":"url"}"#), UrlMessage::Broken);
    assert_eq!(next_stream_url("{"), UrlMessage::Broken);
    assert_eq!(stream_url(&json("[]")), UrlMessage::Other);
    assert!(is_url_message(&json(r#"{"type":"url"}"#)));
    assert!(!is_url_message(&json(r#"{"type":"frame"}"#)));
}

#[test]
fn readiness_takes_three_things() {
    assert!(navigation_ready(&json(
        r#"{"type":"status","connected":true,"screencasting":true}"#
    )));
    for text in [
        r#"{"type":"status","connected":true,"screencasting":false}"#,
        r#"{"type":"status","connected":false,"screencasting":true}"#,
        r#"{"type":"status","connected":true}"#,
        r#"{"type":"url","connected":true,"screencasting":true}"#,
    ] {
        assert!(!navigation_ready(&json(text)), "{text}");
    }
}

#[test]
fn the_active_tab_is_listed() {
    let payload = json(
        r#"{"type":"tabs","tabs":[{"tabId":"t1","active":false},{"tabId":"t2","active":true}]}"#,
    );
    assert!(shows_active_tab(&payload, "t2"));
    assert!(!shows_active_tab(&payload, "t1"));
    assert!(!shows_active_tab(&payload, "t3"));
    assert!(!shows_active_tab(&json(r#"{"type":"tabs","tabs":{}}"#), "t1"));
    assert!(!shows_active_tab(
        &json(r#"{"type":"url","tabs":[{"tabId":"t1","active":true}]}"#),
        "t1"
    ));
    match stream_tabs(&payload) {
        TabsMessage::Tabs(tabs) => assert_eq!(tabs.len(), 2),
        other => panic!("{other:?}"),
    }
    assert_eq!(stream_tabs(&json(r#"{"type":"tabs"}"#)), TabsMessage::Broken);
    assert_eq!(stream_tabs(&json(r#"{"type":"url"}"#)), TabsMessage::Other);
}

#[test]
fn marked_addresses_are_forbidden() {
    let url = |u: &str| json(&format!(r#"{{"type":"url","url":"{u}"}}"#));
    assert_eq!(awaited_url(&url("http://a/2"), "http://a/2", "old"), StreamVerdict::Reached);
    assert_eq!(awaited_url(&url("http://a/1"), "http://a/2", "old"), StreamVerdict::Wait);
    assert_eq!(
        awaited_url(&url("http://a/old"), "http://a/old", "old"),
        StreamVerdict::Forbidden
    );
    assert_eq!(awaited_url(&json(r#"{"type":"url"}"#), "x", "y"), StreamVerdict::Broken);
    assert_eq!(awaited_url(&json("{}"), "x", "y"), StreamVerdict::Wait);
    assert_eq!(stray_url(&url("http://a/1"), "old"), StreamVerdict::Wait);
    assert_eq!(stray_url(&url("http://old/1"), "old"), StreamVerdict::Forbidden);
    assert_eq!(stray_url(&json(r#"{"type":"url"}"#), "y"), StreamVerdict::Broken);
}

#[test]
fn dimensions_of_a_jpeg() {
    let mut data = vec![0xff, 0xd8, 0xff, 0xe0, 0, 4, 1, 2];
    assert_eq!(jpeg_dimensions(&data), None);
    data.extend([0xff, 0xc0, 0, 17, 8, 0x02, 0xd0, 0x05, 0x00]);
    assert_eq!(jpeg_dimensions(&data), Some((1280, 720)));
    assert_eq!(jpeg_dimensions(&data[..data.len() - 1]), None);
    // A progressive one, and only the first marker counts.
    let mut data = vec![0xff, 0xc2, 0, 17, 8, 0, 1, 0, 2];
    data.extend([0xff, 0xc0, 0, 17, 8, 0, 3, 0, 4]);
    assert_eq!(jpeg_dimensions(&data), Some((2, 1)));
    assert_eq!(jpeg_dimensions(&[]), None);
    assert_eq!(jpeg_dimensions(&[0xff; 64]), None);
}

#[test]
fn names_and_files_of_runs() {
    assert_eq!(auth_profile_name("x", 12), "e2e-auth-login-x-12");
    assert_ne!(auth_profile_name("x", 12), auth_profile_name("x", 13));
    assert_eq!(auth_profile_name_since("x", Some(12)), "e2e-auth-login-x-12");
    // A clock that is set before 1970.
    assert_eq!(auth_profile_name_since("x", None), "e2e-auth-login-x-0");
    let name = unique_auth_profile_name("no-navigate");
    let moment = name.strip_prefix("e2e-auth-login-no-navigate-").unwrap();
    // Later than the year 2001.
    assert!(moment.parse::<u128>().unwrap() > 1_000_000_000_000_000_000);
    assert_eq!(
        native_test_fixture_path("drag_probe"),
        "test_fixtures/drag_probe.html"
    );
    let names: Vec<String> = ["key-1.json", "other-1.json", "key-", "keys-2", "key"]
        .into_iter()
        .map(str::to_string)
        .collect();
    assert_eq!(
        restore_state_files(&names, "key"),
        ["key-1.json", "key-1.json.previous", "key-", "key-.previous"]
    );
    assert_eq!(load_binding::<u8, String>(Ok(Some(3))), 3);
}
