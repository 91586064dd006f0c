use agent_browser_daemon::e2e::data_url::{
    html_data_url, native_test_fixture_url, react_fixture_url,
};
use agent_browser_daemon::e2e::markup::{
    CHILD_OVERLAY, CLICK_CHILD, CLICK_PARENT, DELAYED_LOGIN, PARENT_OVERLAY, REACT_FIXTURE_HTML,
    RELATIONSHIP_PARENT,
};
use agent_browser_daemon::e2e::pages::{
    builtin_page, child_frame_url, click_child_page, click_parent_page, cross_branch_pages,
    delayed_login_page, relationship_page, shadow_frame_pages, Cover, ShadowMode, Topology,
};
use agent_browser_daemon::e2e::profile::{native_test_fixture_html, NativeFixtures};
use agent_browser_daemon::e2e::template::fill;
use base64::Engine;

#[test]
fn blanks_are_filled_in_once() {
    assert_eq!(fill("a{x}b{y}c{x}", &vec![("{x}", "1"), ("{y}", "2")]), "a1b2c1");
    // What is filled in is not searched for blanks.
    assert_eq!(
        fill("{x}{y}", &vec![("{x}", "{y}"), ("{y}", "{x}")]),
        "{y}{x}"
    );
    assert_eq!(fill("{z}{", &vec![("{x}", "1")]), "{z}{");
    assert_eq!(fill("plain", &vec![]), "plain");
    assert_eq!(fill("", &vec![("", "no")]), "");
    // One blank is as good as a replacement.
    assert_eq!(fill("aXaaX", &vec![("aX", "-")]), "aXaaX".replace("aX", "-"));
}

#[test]
fn pages_of_a_click_inside_a_frame() {
    assert_eq!(
        child_frame_url(Topology::SameOrigin, 8001, 8002),
        "http://localhost:8001/child"
    );
    assert_eq!(
        child_frame_url(Topology::SameSession, 8001, 8002),
        "http://localhost:8002/child"
    );
    assert_eq!(
        child_frame_url(Topology::Oopif, 8001, 8002),
        "http://127.0.0.1:8002/child"
    );
    assert_eq!(
        click_child_page(Cover::Child),
        CLICK_CHILD.replace("{child_overlay}", CHILD_OVERLAY)
    );
    for cover in [Cover::Nothing, Cover::Parent] {
        assert_eq!(
            click_child_page(cover),
            CLICK_CHILD.replace("{child_overlay}", "")
        );
    }
    let parent = click_parent_page("http://x/child", "scale(2)", Cover::Parent);
    assert_eq!(
        parent,
        CLICK_PARENT
            .replace("{child_url}", "http://x/child")
            .replace("{transform}", "scale(2)")
            .replace("{parent_overlay}", PARENT_OVERLAY)
    );
    assert!(parent.contains("src=\"http://x/child\""));
    assert!(parent.contains("transform:scale(2)\"></iframe>"));
    assert!(parent.contains("window.clicks = {target:0, decoy:0, top:0};"));
    assert!(!click_parent_page("u", "none", Cover::Child).contains("parent-overlay"));
}

#[test]
fn pages_that_speak_of_numbers_and_addresses() {
    let page = delayed_login_page(250, 40);
    assert_eq!(
        page,
        DELAYED_LOGIN
            .replace("{ping_interval_ms}", "40")
            .replace("{render_delay_ms}", "250")
    );
    assert!(page.contains("      }, 40);\n"));
    assert!(page.contains("      }, 250);\n"));
    let page = relationship_page("http://a/child");
    assert_eq!(page, RELATIONSHIP_PARENT.replace("{child_url}", "http://a/child"));
    assert_eq!(page.matches("http://a/child").count(), 4);
    let page = builtin_page("summary");
    assert!(page.contains("const kind = 'summary';"));
    assert!(!page.contains("BUILTIN_KIND"));
}

fn page<'a>(pages: &'a [(String, String)], path: &str) -> &'a str {
    &pages.iter().find(|(p, _)| p == path).unwrap().1
}

#[test]
fn pages_of_two_branches() {
    let pages = cross_branch_pages(Topology::SameSession, true, 1, 2);
    let paths: Vec<&str> = pages.iter().map(|(path, _)| path.as_str()).collect();
    assert_eq!(
        paths,
        [
            "/",
            "/common",
            "/target-leaf",
            "/target-branch",
            "/overlay-leaf",
            "/overlay-branch"
        ]
    );
    assert!(page(&pages, "/").contains("const expected = true ? branch.frames[0] : branch;"));
    assert!(page(&pages, "/common").contains("src=\"http://localhost:1/target-branch\""));
    assert!(page(&pages, "/common").contains("src=\"http://localhost:2/overlay-branch\""));
    assert!(page(&pages, "/target-branch").contains("src=\"http://localhost:2/target-leaf\""));
    assert!(page(&pages, "/overlay-branch").contains("src=\"http://localhost:1/overlay-leaf\""));
    assert_eq!(
        page(&pages, "/target-leaf"),
        "<!doctype html><body style=\"margin:0\"><button id=\"target-internal\" \
         style=\"position:absolute;inset:0;width:100%;height:100%\" \
         onclick=\"top.postMessage({kind:'click',name:'target'},'*')\">Cross branch \
         target</button><script>top.postMessage({kind:'ready',name:'target',\
         origin:location.origin,parentAccessible:!!frameElement},'*')</script>"
    );
    let pages = cross_branch_pages(Topology::SameOrigin, false, 1, 2);
    assert!(page(&pages, "/").contains("const expected = false ?"));
    assert!(page(&pages, "/common").contains("src=\"http://localhost:1/target-leaf\""));
    assert!(page(&pages, "/common").contains("src=\"http://localhost:1/overlay-leaf\""));
}

#[test]
fn pages_of_a_shared_shell() {
    let pages = shadow_frame_pages(Topology::SameSession, ShadowMode::Closed, true, false, 1, 2);
    let common = page(&pages, "/common");
    assert!(common.contains("window.cousins = false;"));
    assert!(common.contains("attachShadow({mode:'closed'});"));
    assert!(common.contains("src=\"http://localhost:2/target-leaf\""));
    assert!(common.contains("<iframe id=\"chat-frame\" title=\"Chat frame\" src=\"http://localhost:2/overlay-leaf\""));
    assert!(common.contains("window.covering = fixtureRoot.getElementById('chat-frame');"));
    assert!(common.contains("if (!true) {"));
    let pages = shadow_frame_pages(Topology::SameOrigin, ShadowMode::Open, false, true, 1, 2);
    let common = page(&pages, "/common");
    assert!(common.contains("window.cousins = true;"));
    assert!(common.contains("attachShadow({mode:'open'});"));
    assert!(common.contains("src=\"http://localhost:1/target-branch\""));
    assert!(common.contains("<cookie-dialog id=\"consent\""));
    assert!(common.contains("getElementById('consent')"));
    assert!(common.contains("if (!false) {"));
    assert!(page(&pages, "/overlay-leaf").contains(">Shared shell chat</button>"));
    assert!(page(&pages, "/overlay-branch").contains("src=\"http://localhost:1/overlay-leaf\""));
}

#[test]
fn pages_are_written_into_addresses() {
    let engine = base64::engine::general_purpose::STANDARD;
    for html in ["", "f", "fo", "foo", "foob", "fooba", "foobar", "é\u{10ffff}<>", "?>?>~~~"] {
        let url = html_data_url(html);
        let text = url.strip_prefix("data:text/html;base64,").unwrap();
        assert_eq!(engine.decode(text).unwrap(), html.as_bytes());
    }
    assert_eq!(html_data_url("foobar"), "data:text/html;base64,Zm9vYmFy");
    assert_eq!(html_data_url("fooba"), "data:text/html;base64,Zm9vYmE=");
    assert_eq!(html_data_url("foob"), "data:text/html;base64,Zm9vYg==");
    assert_eq!(html_data_url("~~~?"), "data:text/html;base64,fn5+Pw==");
    let fixtures = NativeFixtures {
        drag_probe: "f".to_string(),
        html5_drag_probe: "fo".to_string(),
        pointer_capture_probe: "foo".to_string(),
        snapshot_diff_probe: "foob".to_string(),
        upload_probe: "fooba".to_string(),
        webmcp_delayed_probe: "foobar".to_string(),
        webmcp_frame_probe: "~~~?".to_string(),
        webmcp_probe: String::new(),
        webmcp_context_probe: "?>?>~~~".to_string(),
    };
    for (name, html) in [
        ("drag_probe", "f"),
        ("html5_drag_probe", "fo"),
        ("pointer_capture_probe", "foo"),
        ("snapshot_diff_probe", "foob"),
        ("upload_probe", "fooba"),
        ("webmcp_delayed_probe", "foobar"),
        ("webmcp_frame_probe", "~~~?"),
        ("webmcp_probe", ""),
        ("webmcp_context_probe", "?>?>~~~"),
    ] {
        assert_eq!(native_test_fixture_html(&fixtures, name), html);
        assert_eq!(native_test_fixture_url(&fixtures, name), html_data_url(html));
    }
    assert_eq!(
        native_test_fixture_url(&fixtures, "pointer_capture_probe"),
        "data:text/html;base64,Zm9v"
    );
    let react = react_fixture_url();
    let text = react.strip_prefix("data:text/html;base64,").unwrap();
    assert_eq!(engine.decode(text).unwrap(), REACT_FIXTURE_HTML.as_bytes());
}
