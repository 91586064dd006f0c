use agent_browser_daemon::json::Json;
use agent_browser_daemon::protocol::{
    close_completed_response, invalid_json_response, looks_like_http, parse_line, read_parsed,
    read_request, response_frame, Request, INTERNAL_DAEMON_SHUTDOWN_ACTION,
};

fn json(text: &str) -> Json {
    Json::parse(text).unwrap()
}

#[test]
fn test_close_completed_response_requires_actual_close_result() {
    let confirmation_response = json(
        r#"{
            "success": true,
            "data": {
                "confirmation_required": true,
                "confirmation_id": "close-1",
                "action": "close"
            }
        }"#,
    );

    assert!(!close_completed_response("close", &confirmation_response));
}

#[test]
fn test_close_completed_response_accepts_direct_and_confirmed_close() {
    let direct = json(r#"{ "success": true, "data": { "closed": true } }"#);
    let confirmed = json(
        r#"{
            "success": true,
            "data": {
                "confirmed": true,
                "action": "close",
                "result": {
                    "success": true,
                    "data": { "closed": true }
                }
            }
        }"#,
    );

    assert!(close_completed_response("close", &direct));
    assert!(close_completed_response(
        INTERNAL_DAEMON_SHUTDOWN_ACTION,
        &direct
    ));
    assert!(close_completed_response("confirm", &confirmed));
}

#[test]
fn close_is_completed_only_by_a_success() {
    let direct = json(r#"{ "success": true, "data": { "closed": true } }"#);
    assert!(!close_completed_response("tab_close", &direct));
    assert!(!close_completed_response("", &direct));
    for text in [
        r#"{ "success": false, "data": { "closed": true } }"#,
        r#"{ "data": { "closed": true } }"#,
        r#"{ "success": true }"#,
        r#"{ "success": true, "data": { "closed": false } }"#,
        r#"{ "success": true, "data": { "closed": "true" } }"#,
        r#"{ "success": true, "data": { "result": { "success": false, "data": { "closed": true } } } }"#,
        r#"{ "success": true, "data": { "result": { "success": true } } }"#,
        r#"[true]"#,
        r#"null"#,
    ] {
        assert!(!close_completed_response("close", &json(text)), "{text}");
    }
    // What counts is what is said last.
    assert!(close_completed_response(
        "close",
        &json(r#"{ "success": false, "success": true, "data": { "closed": true } }"#)
    ));
}

#[test]
fn http_is_told_by_its_method() {
    for method in [
        "GET", "POST", "PUT", "DELETE", "PATCH", "HEAD", "OPTIONS", "CONNECT", "TRACE",
    ] {
        assert!(looks_like_http(&format!("{method} / HTTP/1.1")));
        assert!(!looks_like_http(method));
        assert!(!looks_like_http(&format!(" {method} /")));
        assert!(!looks_like_http(&format!("{method}/")));
    }
    assert!(!looks_like_http("get / HTTP/1.1"));
    assert!(!looks_like_http("{\"action\":\"GET \"}"));
}

#[test]
fn requests_are_told_apart() {
    assert_eq!(read_request(" \t\r\n"), Request::Blank);
    assert_eq!(read_request("  GET / HTTP/1.1\r\n"), Request::Http);
    match read_request("{oops}\n") {
        Request::Invalid(message) => {
            let expected = serde_json::from_str::<serde_json::Value>("{oops}")
                .unwrap_err()
                .to_string();
            assert_eq!(message, expected);
        }
        other => panic!("{other:?}"),
    }
    match read_request("{\"action\":\"click\",\"ref\":\"e1\"}\r\n") {
        Request::Command(action, command) => {
            assert_eq!(action, "click");
            assert_eq!(command.get("ref").unwrap().as_text(), Some("e1"));
        }
        other => panic!("{other:?}"),
    }
    // A command need not name its action, nor be an object.
    assert_eq!(
        read_request("[1]"),
        Request::Command(String::new(), json("[1]"))
    );
    assert_eq!(
        read_request(r#"{"action":7}"#),
        Request::Command(String::new(), json(r#"{"action":7}"#))
    );
    assert_eq!(
        read_parsed(Err("no".to_string())),
        Request::Invalid("no".to_string())
    );
}

#[test]
fn bad_json_is_answered_in_kind() {
    let response = invalid_json_response("expected value at line 1 column 1");
    assert_eq!(
        response_frame(response),
        "{\"error\":\"Invalid JSON: expected value at line 1 column 1\",\"success\":false}\n"
    );
}

#[test]
fn frames_hold_one_line_each() {
    let frame = response_frame(json(r#"{"text":"a\nb","list":[1,2.5,null,true]}"#));
    assert_eq!(frame, "{\"list\":[1,2.5,null,true],\"text\":\"a\\nb\"}\n");
    assert_eq!(frame.matches('\n').count(), 1);
    let back = json(frame.trim_end());
    assert_eq!(back.get("text").unwrap().as_text(), Some("a\nb"));
}

#[test]
fn a_client_gets_every_response_back() {
    let texts = ["{\"a\":\"x\\ny\"}", "[1,2]", "\"\\r\\n\"", "{}"];
    let stream: String = texts.iter().map(|text| response_frame(json(text))).collect();
    let lines: Vec<&str> = stream.split_terminator('\n').collect();
    assert_eq!(lines.len(), texts.len());
    for (line, text) in lines.iter().zip(texts) {
        assert_eq!(json(line), json(text));
    }
}

#[test]
fn lines_of_json_are_no_http() {
    for method in [
        "GET ", "POST ", "PUT ", "DELETE ", "PATCH ", "HEAD ", "OPTIONS ", "CONNECT ", "TRACE ",
    ] {
        let line = format!("{method}/ HTTP/1.1");
        assert!(looks_like_http(&line));
        assert!(parse_line(&line).is_err());
        assert_eq!(read_request(&line), Request::Http);
        // A string may begin like a request; a document that holds it does not.
        let quoted = format!("\"{line}\"");
        assert!(!looks_like_http(&quoted));
        assert_eq!(parse_line(&quoted), Ok(Json::Text(line.clone())));
        let object = format!("{{\"action\":\"{line}\"}}");
        assert!(!looks_like_http(&object));
        assert!(matches!(read_request(&object), Request::Command(_, _)));
    }
    for document in ["null", "true", "-1", "[]", "{}", "\"GET \""] {
        assert!(parse_line(document).is_ok());
        assert!(!looks_like_http(document));
    }
}
