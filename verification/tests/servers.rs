use agent_browser_daemon::e2e::http::{http_response, request_target};
use agent_browser_daemon::e2e::servers::{
    cookie_login_response, echo_response, echoed_headers, framed_response, html_response,
    navigation_response, nested_frames_response, paged_response, requested_tool_page,
    slow_login_response, stateful_login_response, tool_fixture, tool_response, StatefulLogin,
    ToolPage, FAKE_DAEMON_REPLY,
};
use agent_browser_daemon::json::Json;

/// The head of a response, and its body.
fn parts(response: &str) -> (&str, &str) {
    response.split_once("\r\n\r\n").unwrap()
}

fn announced_length(head: &str) -> usize {
    head.lines()
        .find_map(|line| line.strip_prefix("Content-Length: "))
        .unwrap()
        .parse()
        .unwrap()
}

#[test]
fn targets_of_requests() {
    assert_eq!(request_target("GET /a?b HTTP/1.1\r\nHost: x\r\n"), "/a?b");
    assert_eq!(request_target("  GET \t /a\n"), "/a");
    assert_eq!(request_target("GET\r\n/a\r\n"), "/");
    assert_eq!(request_target(""), "/");
    assert_eq!(request_target("\nGET /a"), "/");
}

#[test]
fn responses_announce_their_length_in_bytes() {
    let response = http_response("200 OK", &vec!["A: 1", "B: 2"], "h\u{e9}\u{10ffff}");
    assert_eq!(
        response,
        "HTTP/1.1 200 OK\r\nA: 1\r\nB: 2\r\nContent-Length: 7\r\nConnection: close\r\n\r\n\
         h\u{e9}\u{10ffff}"
    );
    assert_eq!(
        http_response("204 No Content", &vec![], ""),
        "HTTP/1.1 204 No Content\r\nContent-Length: 0\r\nConnection: close\r\n\r\n"
    );
    assert_eq!(
        html_response("<p>"),
        "HTTP/1.1 200 OK\r\nContent-Type: text/html\r\nContent-Length: 3\r\n\
         Connection: close\r\n\r\n<p>"
    );
}

#[test]
fn headers_are_echoed() {
    let request = "GET / HTTP/1.1\r\nHost: localhost:1\r\nX: a: b\r\nno colon\r\nX-Y:z\r\n\
                   Host: other\r\n\r\nBody: not a header";
    let expected = "{\"headers\":{\"Host\":\"other\",\"X\":\"a: b\"}}";
    assert_eq!(echoed_headers(request).into_text(), expected);
    let response = echo_response(request);
    let (head, body) = parts(&response);
    assert_eq!(body, expected);
    assert_eq!(announced_length(head), expected.len());
    assert!(head.starts_with(
        "HTTP/1.1 200 OK\r\nContent-Type: application/json\r\nAccess-Control-Allow-Origin: *\r\n"
    ));
    assert_eq!(echoed_headers("").into_text(), "{\"headers\":{}}");
}

#[test]
fn a_login_is_remembered_by_a_cookie() {
    let login = cookie_login_response("GET /login?x HTTP/1.1\r\n\r\n");
    assert!(login.contains(
        "\r\nSet-Cookie: next_dev_loop_auth=1; Path=/; Max-Age=3600; SameSite=Lax\r\n"
    ));
    assert!(login.ends_with("<main>Login complete</main>"));
    let stranger = cookie_login_response("GET / HTTP/1.1\r\nHost: x\r\n\r\n");
    assert!(stranger.ends_with("<main>Please sign in</main>"));
    assert!(!stranger.contains("Set-Cookie"));
    for name in ["Cookie:", "cookie:", "COOKIE:"] {
        let back = cookie_login_response(&format!(
            "GET / HTTP/1.1\r\n{name} a=b; next_dev_loop_auth=1\r\n\r\n"
        ));
        assert!(back.ends_with("<main>Welcome back</main>"), "{name}");
    }
    let other = cookie_login_response("GET / HTTP/1.1\r\nX: next_dev_loop_auth=1\r\n\r\n");
    assert!(other.ends_with("<main>Please sign in</main>"));
}

#[test]
fn late_and_stateful_logins() {
    let ping = slow_login_response("GET /ping?ts=1 HTTP/1.1\r\n\r\n", 1, 2);
    assert_eq!(
        ping,
        "HTTP/1.1 204 No Content\r\nContent-Type: text/plain\r\n\
         Access-Control-Allow-Origin: *\r\nContent-Length: 0\r\nConnection: close\r\n\r\n"
    );
    let page = slow_login_response("GET / HTTP/1.1\r\n\r\n", 1, 2);
    let (head, body) = parts(&page);
    assert!(head.starts_with("HTTP/1.1 200 OK\r\nContent-Type: text/html\r\nAccess-Control"));
    assert!(body.contains("<title>Delayed Login</title>"));
    assert_eq!(announced_length(head), body.len());
    let (counts, page) = stateful_login_response("GET /account HTTP/1.1\r\n\r\n");
    assert!(counts);
    assert!(page.contains("<title>Stateful Login</title>"));
    assert!(!stateful_login_response("GET /favicon.ico HTTP/1.1\r\n\r\n").0);
}

#[test]
fn documents_are_counted_and_icons_are_not() {
    let mut application = StatefulLogin::new();
    assert_eq!(application.documents, 0);
    let mut icons = 0;
    for (i, target) in ["/", "/favicon.ico", "/account", "/favicon", "/a/favicon.ico"]
        .into_iter()
        .enumerate()
    {
        let page = application.answer(&format!("GET {target} HTTP/1.1\r\n\r\n"));
        assert_eq!(page, stateful_login_response("").1);
        icons += usize::from(target.starts_with("/favicon"));
        assert_eq!(application.documents, i + 1 - icons);
    }
    assert_eq!(application.documents, 3);
    // Only icons leave the counter as it is.
    application.answer("GET /favicon.svg HTTP/1.1\r\n\r\n");
    assert_eq!(application.documents, 3);
    application.answer("");
    assert_eq!(application.documents, 4);
    // A counter that is full begins anew.
    let mut full = StatefulLogin {
        documents: usize::MAX,
    };
    full.answer("GET / HTTP/1.1\r\n\r\n");
    assert_eq!(full.documents, 0);
}

#[test]
fn navigation_redirects_to_a_page() {
    assert_eq!(
        navigation_response("GET /redirect/a/b?c HTTP/1.1\r\n\r\n"),
        "HTTP/1.1 302 Found\r\nLocation: /landed/a/b\r\nContent-Length: 0\r\n\
         Connection: close\r\n\r\n"
    );
    let child = navigation_response("GET /child?x HTTP/1.1\r\n\r\n");
    assert!(child.ends_with("<p id=\"child\">child</p>"));
    for target in ["/landed/a/b", "/", "/redirect", "/child/"] {
        let page = navigation_response(&format!("GET {target} HTTP/1.1\r\n\r\n"));
        assert!(page.ends_with("<iframe id=\"child\" src=\"/child\"></iframe>"), "{target}");
    }
}

#[test]
fn nested_frames_know_their_port() {
    let title = |target: &str| {
        let response = nested_frames_response(&format!("GET {target} HTTP/1.1\r\n\r\n"), 8080);
        let (head, body) = parts(&response);
        assert_eq!(announced_length(head), body.len());
        assert!(head.starts_with("HTTP/1.1 200 OK\r\nContent-Type: text/html\r\n"));
        body.to_string()
    };
    assert!(title("/top").contains("src=\"http://127.0.0.1:8080/outer\""));
    assert!(title("/outer").contains("<title>Outer</title>"));
    assert!(title("/inner").contains("<title>Inner</title>"));
    assert!(title("/siblings").contains("src=\"http://127.0.0.1:8080/first-frame\""));
    assert!(title("/siblings").contains("src=\"http://127.0.0.1:8080/second-frame\""));
    assert!(title("/first-frame").contains("<title>First</title>"));
    assert!(title("/second-frame").contains("<title>Second</title>"));
    assert!(title("/background").contains("src=\"http://127.0.0.1:8080/background-frame\""));
    assert!(title("/background-frame").contains("<title>Background frame</title>"));
    assert_eq!(
        nested_frames_response("GET /missing-outer.png HTTP/1.1\r\n\r\n", 8080),
        "HTTP/1.1 404 Not Found\r\nContent-Type: text/plain\r\nContent-Length: 9\r\n\
         Connection: close\r\n\r\nnot found"
    );
}

#[test]
fn pages_with_tools() {
    let asked = |target: &str| requested_tool_page(&format!("GET {target} HTTP/1.1\r\n"));
    assert_eq!(asked("/frame.html"), ToolPage::Frame);
    assert_eq!(asked("/context.html"), ToolPage::Context);
    assert_eq!(asked("/empty.html"), ToolPage::Empty);
    assert_eq!(asked("/delayed.html"), ToolPage::Delayed);
    assert_eq!(asked("/frame.html?x"), ToolPage::Probe);
    assert_eq!(asked("/"), ToolPage::Probe);
    assert_eq!(tool_fixture(ToolPage::Frame), Some("webmcp_frame_probe"));
    assert_eq!(tool_fixture(ToolPage::Context), Some("webmcp_context_probe"));
    assert_eq!(tool_fixture(ToolPage::Delayed), Some("webmcp_delayed_probe"));
    assert_eq!(tool_fixture(ToolPage::Probe), Some("webmcp_probe"));
    assert_eq!(tool_fixture(ToolPage::Empty), None);
    assert!(tool_response(ToolPage::Probe, "<__PORT__-__PORT__>", 81).ends_with("<81-81>"));
    assert!(tool_response(ToolPage::Frame, "<__PORT__>", 81).ends_with("<81>"));
    assert!(tool_response(ToolPage::Context, "<__PORT__>", 81).ends_with("<__PORT__>"));
    assert!(tool_response(ToolPage::Delayed, "<__PORT__>", 81).ends_with("<__PORT__>"));
    assert!(tool_response(ToolPage::Empty, "", 81)
        .ends_with("<!doctype html><title>No page tools</title>"));
}

#[test]
fn servers_of_frames() {
    let head = "HTTP/1.1 200 OK\r\nContent-Type: text/html\r\nOrigin-Agent-Cluster: ?0\r\n";
    let child = framed_response("GET /child HTTP/1.1\r\n", "P", "C");
    assert_eq!(
        child,
        format!("{head}Content-Length: 1\r\nConnection: close\r\n\r\nC")
    );
    assert!(framed_response("GET /children HTTP/1.1\r\n", "P", "C").ends_with("\r\n\r\nP"));
    let pages = vec![
        ("/".to_string(), "root".to_string()),
        ("/a".to_string(), "old".to_string()),
        ("/a".to_string(), "new".to_string()),
    ];
    assert!(paged_response("GET /a HTTP/1.1\r\n", &pages).ends_with("\r\n\r\nnew"));
    assert!(paged_response("", &pages).ends_with("\r\n\r\nroot"));
    assert_eq!(
        paged_response("GET /b HTTP/1.1\r\n", &pages),
        format!("{head}Content-Length: 0\r\nConnection: close\r\n\r\n")
    );
}

#[test]
fn the_stand_in_for_a_daemon_reports_success() {
    let reply = Json::parse(FAKE_DAEMON_REPLY).unwrap();
    assert_eq!(reply.get("success").unwrap().as_bool(), Some(true));
    assert_eq!(
        reply.get("data").unwrap().get("ok").unwrap().as_bool(),
        Some(true)
    );
}
