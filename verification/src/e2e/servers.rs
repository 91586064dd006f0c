//! What the servers behind the pages answer. A request is the text that came in
//! on a connection; the answer is all that goes out on it.

use crate::e2e::http::{http_response, request_target, response, target};
use crate::e2e::markup::{
    A11Y_BACKGROUND, A11Y_BACKGROUND_FRAME, A11Y_FIRST_FRAME, A11Y_INNER, A11Y_OUTER,
    A11Y_SECOND_FRAME, A11Y_SIBLINGS, A11Y_TOP, STATEFUL_LOGIN,
};
use crate::e2e::pages::{delayed_login, delayed_login_page, page_views, PageView};
use crate::e2e::template::{field_views, fill, filled};
use crate::json::{json_text, members_view, push_member, Json, JsonView};
use crate::scan::{
    begins_like, contains_text, halves, lines, occurs, replace_all, replaced, split_at_first,
    starts_like, str_views, text_lines,
};
use crate::text::{decimal, decimal_text, same_text, starts_with};
use vstd::prelude::*;

verus! {

/// What a stand-in for a daemon answers to any command, on a line of its own.
pub const FAKE_DAEMON_REPLY: &'static str = r#"{"success":true,"data":{"ok":true}}"#;

/// A page of markup.
pub open spec fn html(body: Seq<char>) -> Seq<char> {
    response("200 OK"@, seq!["Content-Type: text/html"@], body)
}

/// A page of markup.
pub fn html_response(body: &str) -> (r: String)
    ensures
        r@ == html(body@),
{
    let mut headers: Vec<&str> = Vec::new();
    headers.push("Content-Type: text/html");
    assert(str_views(headers@) =~= seq!["Content-Type: text/html"@]);
    http_response("200 OK", &headers, body)
}

/// A page of markup that may share its process with pages of other origins of
/// its site.
pub open spec fn shared_html(body: Seq<char>) -> Seq<char> {
    response(
        "200 OK"@,
        seq!["Content-Type: text/html"@, "Origin-Agent-Cluster: ?0"@],
        body,
    )
}

/// A page of markup that may share its process with pages of other origins of
/// its site.
pub fn shared_html_response(body: &str) -> (r: String)
    ensures
        r@ == shared_html(body@),
{
    let mut headers: Vec<&str> = Vec::new();
    headers.push("Content-Type: text/html");
    headers.push("Origin-Agent-Cluster: ?0");
    assert(str_views(headers@) =~= seq!["Content-Type: text/html"@, "Origin-Agent-Cluster: ?0"@]);
    http_response("200 OK", &headers, body)
}

/// The answer of a server with one page for `/child` and one for all else.
pub open spec fn framed(request: Seq<char>, parent: Seq<char>, child: Seq<char>) -> Seq<char> {
    shared_html(
        if "GET /child "@.is_prefix_of(request) {
            child
        } else {
            parent
        },
    )
}

/// The answer of a server with one page for `/child` and one for all else.
pub fn framed_response(request: &str, parent: &str, child: &str) -> (r: String)
    ensures
        r@ == framed(request@, parent@, child@),
{
    shared_html_response(
        if starts_with(request, "GET /child ") {
            child
        } else {
            parent
        },
    )
}

/// The page that is found under a path: the last of the list, or an empty one.
pub open spec fn page_at(pages: Seq<PageView>, path: Seq<char>) -> Seq<char>
    decreases pages.len(),
{
    if pages.len() == 0 {
        ""@
    } else if pages.last().0 == path {
        pages.last().1
    } else {
        page_at(pages.drop_last(), path)
    }
}

/// The answer of a server with a page for each of several paths, and an empty
/// one for all others.
pub fn paged_response(request: &str, pages: &Vec<(String, String)>) -> (r: String)
    ensures
        r@ == shared_html(page_at(page_views(pages@), target(request@))),
{
    let path = request_target(request);
    let mut i: usize = pages.len();
    assert(pages@.take(i as int) =~= pages@);
    while i > 0
        invariant
            i <= pages@.len(),
            path@ == target(request@),
            page_at(page_views(pages@), path@) == page_at(
                page_views(pages@.take(i as int)),
                path@,
            ),
        decreases i,
    {
        assert(page_views(pages@.take(i as int)).drop_last() =~= page_views(pages@.take(i - 1)));
        assert(page_views(pages@.take(i as int)).last() == (
            pages@[i - 1].0@,
            pages@[i - 1].1@,
        ));
        if same_text(pages[i - 1].0.as_str(), path) {
            return shared_html_response(pages[i - 1].1.as_str());
        }
        i = i - 1;
    }
    shared_html_response("")
}

/// The members that a request's headers make, added to those that there are:
/// what stands before and after the first colon and space of a line. An empty
/// line ends the headers; a line without a colon and space says nothing.
pub open spec fn headers_after(
    seen: Map<Seq<char>, JsonView>,
    header_lines: Seq<Seq<char>>,
) -> Map<Seq<char>, JsonView>
    decreases header_lines.len(),
{
    if header_lines.len() == 0 || header_lines[0].len() == 0 {
        seen
    } else {
        headers_after(
            match halves(header_lines[0], ": "@) {
                Some((name, value)) => seen.insert(name, JsonView::Text(value)),
                None => seen,
            },
            header_lines.drop_first(),
        )
    }
}

/// The headers of a request, as a document.
pub open spec fn echoed(request: Seq<char>) -> JsonView {
    let found = text_lines(request);
    let header_lines = if found.len() > 0 {
        found.drop_first()
    } else {
        found
    };
    JsonView::Object(
        Map::<Seq<char>, JsonView>::empty().insert(
            "headers"@,
            JsonView::Object(headers_after(Map::empty(), header_lines)),
        ),
    )
}

/// The headers of a request, as a document.
pub fn echoed_headers(request: &str) -> (r: Json)
    ensures
        r@ == echoed(request@),
{
    let found = lines(request);
    let ghost all = str_views(found@);
    let ghost wanted = headers_after(
        Map::empty(),
        if all.len() > 0 {
            all.drop_first()
        } else {
            all
        },
    );
    let n: usize = found.len();
    let mut seen: Vec<(String, Json)> = Vec::new();
    let mut i: usize = if n > 0 {
        1
    } else {
        0
    };
    assert(all.len() == n);
    assert(all.skip(i as int) =~= if all.len() > 0 {
        all.drop_first()
    } else {
        all
    });
    while i < n && !found[i].is_empty()
        invariant
            i <= n,
            n == found@.len(),
            all == str_views(found@),
            headers_after(members_view(seen@), all.skip(i as int)) == wanted,
        decreases n - i,
    {
        let line = found[i];
        assert(all.skip(i as int)[0] == line@);
        assert(all.skip(i as int).drop_first() =~= all.skip(i + 1));
        match split_at_first(line, ": ") {
            Some((name, value)) => {
                push_member(&mut seen, name, Json::Text(value.to_owned()));
            },
            None => {},
        }
        i = i + 1;
    }
    assert(members_view(seen@) == wanted) by {
        if i < n {
            assert(all.skip(i as int)[0].len() == 0);
        } else {
            assert(all.skip(i as int).len() == 0);
        }
    }
    let mut members: Vec<(String, Json)> = Vec::new();
    push_member(&mut members, "headers", Json::Object(seen));
    Json::Object(members)
}

/// The answer of a server that says what headers a request had.
pub fn echo_response(request: &str) -> (r: String)
    ensures
        r@ == response(
            "200 OK"@,
            seq!["Content-Type: application/json"@, "Access-Control-Allow-Origin: *"@],
            json_text(echoed(request@)),
        ),
{
    let body = echoed_headers(request).into_text();
    let mut headers: Vec<&str> = Vec::new();
    headers.push("Content-Type: application/json");
    headers.push("Access-Control-Allow-Origin: *");
    assert(str_views(headers@) =~= seq![
        "Content-Type: application/json"@,
        "Access-Control-Allow-Origin: *"@,
    ]);
    http_response("200 OK", &headers, body.as_str())
}

/// Where a page with tools comes from.
#[derive(Clone, Copy, Debug, PartialEq, Eq, Structural)]
pub enum ToolPage {
    /// A fixture that speaks of the port it is served on.
    Frame,
    Context,
    /// A page without tools.
    Empty,
    Delayed,
    /// A fixture that speaks of the port it is served on.
    Probe,
}

/// The page with tools that a request asks for.
pub open spec fn tool_page(request: Seq<char>) -> ToolPage {
    if "GET /frame.html "@.is_prefix_of(request) {
        ToolPage::Frame
    } else if "GET /context.html "@.is_prefix_of(request) {
        ToolPage::Context
    } else if "GET /empty.html "@.is_prefix_of(request) {
        ToolPage::Empty
    } else if "GET /delayed.html "@.is_prefix_of(request) {
        ToolPage::Delayed
    } else {
        ToolPage::Probe
    }
}

/// The page with tools that a request asks for.
pub fn requested_tool_page(request: &str) -> (r: ToolPage)
    ensures
        r == tool_page(request@),
{
    if starts_with(request, "GET /frame.html ") {
        ToolPage::Frame
    } else if starts_with(request, "GET /context.html ") {
        ToolPage::Context
    } else if starts_with(request, "GET /empty.html ") {
        ToolPage::Empty
    } else if starts_with(request, "GET /delayed.html ") {
        ToolPage::Delayed
    } else {
        ToolPage::Probe
    }
}

/// The fixture that a page with tools is made of, if it is made of one.
pub fn tool_fixture(page: ToolPage) -> (r: Option<&'static str>)
    ensures
        match (page, r) {
            (ToolPage::Frame, Some(name)) => name@ == "webmcp_frame_probe"@,
            (ToolPage::Context, Some(name)) => name@ == "webmcp_context_probe"@,
            (ToolPage::Delayed, Some(name)) => name@ == "webmcp_delayed_probe"@,
            (ToolPage::Probe, Some(name)) => name@ == "webmcp_probe"@,
            (ToolPage::Empty, None) => true,
            _ => false,
        },
{
    match page {
        ToolPage::Frame => Some("webmcp_frame_probe"),
        ToolPage::Context => Some("webmcp_context_probe"),
        ToolPage::Delayed => Some("webmcp_delayed_probe"),
        ToolPage::Probe => Some("webmcp_probe"),
        ToolPage::Empty => None,
    }
}

/// The markup of a page with tools that is served on a port.
pub open spec fn tool_markup(page: ToolPage, fixture: Seq<char>, port: nat) -> Seq<char> {
    match page {
        ToolPage::Frame => replaced(fixture, "__PORT__"@, decimal(port)),
        ToolPage::Probe => replaced(fixture, "__PORT__"@, decimal(port)),
        ToolPage::Empty => "<!doctype html><title>No page tools</title>"@,
        _ => fixture,
    }
}

/// The answer of a server of pages with tools, given the text of the fixture.
pub fn tool_response(page: ToolPage, fixture: &str, port: u16) -> (r: String)
    ensures
        r@ == html(tool_markup(page, fixture@, port as nat)),
{
    proof {
        reveal_strlit("__PORT__");
    }
    match page {
        ToolPage::Frame => html_response(
            replace_all(fixture, "__PORT__", decimal_text(port as u128).as_str()).as_str(),
        ),
        ToolPage::Probe => html_response(
            replace_all(fixture, "__PORT__", decimal_text(port as u128).as_str()).as_str(),
        ),
        ToolPage::Empty => html_response("<!doctype html><title>No page tools</title>"),
        _ => html_response(fixture),
    }
}

/// Whether a header line brings back the cookie of a login.
pub open spec fn login_cookie(line: Seq<char>) -> bool {
    begins_like(line, "cookie:"@) && occurs(line, "next_dev_loop_auth=1"@)
}

/// Whether a request brings back the cookie of a login.
pub open spec fn logged_in(request: Seq<char>) -> bool {
    exists|i: int|
        0 <= i < text_lines(request).len() && login_cookie(#[trigger] text_lines(request)[i])
}

fn brings_login_cookie(request: &str) -> (r: bool)
    ensures
        r == logged_in(request@),
{
    let found = lines(request);
    let ghost all = text_lines(request@);
    let n: usize = found.len();
    assert(all.len() == n);
    let mut i: usize = 0;
    while i < n
        invariant
            i <= n,
            n == found@.len(),
            all == text_lines(request@),
            all == str_views(found@),
            forall|k: int| 0 <= k < i ==> !login_cookie(#[trigger] all[k]),
        decreases n - i,
    {
        let line = found[i];
        assert(all[i as int] == line@);
        if starts_like(line, "cookie:") && contains_text(line, "next_dev_loop_auth=1") {
            return true;
        }
        i = i + 1;
    }
    false
}

/// The answer of an application with a login that a cookie remembers.
pub open spec fn cookie_login(request: Seq<char>) -> Seq<char> {
    if "/login"@.is_prefix_of(target(request)) {
        response(
            "200 OK"@,
            seq![
                "Content-Type: text/html"@,
                "Set-Cookie: next_dev_loop_auth=1; Path=/; Max-Age=3600; SameSite=Lax"@,
            ],
            "<!doctype html><title>Logged in</title><main>Login complete</main>"@,
        )
    } else if logged_in(request) {
        html("<!doctype html><title>Home</title><main>Welcome back</main>"@)
    } else {
        html("<!doctype html><title>Home</title><main>Please sign in</main>"@)
    }
}

/// The answer of an application with a login that a cookie remembers.
pub fn cookie_login_response(request: &str) -> (r: String)
    ensures
        r@ == cookie_login(request@),
{
    if starts_with(request_target(request), "/login") {
        let mut headers: Vec<&str> = Vec::new();
        headers.push("Content-Type: text/html");
        headers.push("Set-Cookie: next_dev_loop_auth=1; Path=/; Max-Age=3600; SameSite=Lax");
        assert(str_views(headers@) =~= seq![
            "Content-Type: text/html"@,
            "Set-Cookie: next_dev_loop_auth=1; Path=/; Max-Age=3600; SameSite=Lax"@,
        ]);
        http_response(
            "200 OK",
            &headers,
            "<!doctype html><title>Logged in</title><main>Login complete</main>",
        )
    } else if brings_login_cookie(request) {
        html_response("<!doctype html><title>Home</title><main>Welcome back</main>")
    } else {
        html_response("<!doctype html><title>Home</title><main>Please sign in</main>")
    }
}

/// The answer of an application whose login form appears late. The page fetches
/// from `/ping`, which answers nothing.
pub open spec fn slow_login(request: Seq<char>, render_delay_ms: nat, ping_interval_ms: nat) -> Seq<
    char,
> {
    if "/ping"@.is_prefix_of(target(request)) {
        response(
            "204 No Content"@,
            seq!["Content-Type: text/plain"@, "Access-Control-Allow-Origin: *"@],
            ""@,
        )
    } else {
        response(
            "200 OK"@,
            seq!["Content-Type: text/html"@, "Access-Control-Allow-Origin: *"@],
            delayed_login(render_delay_ms, ping_interval_ms),
        )
    }
}

/// The answer of an application whose login form appears late.
pub fn slow_login_response(request: &str, render_delay_ms: u64, ping_interval_ms: u64) -> (r:
    String)
    ensures
        r@ == slow_login(request@, render_delay_ms as nat, ping_interval_ms as nat),
{
    let mut headers: Vec<&str> = Vec::new();
    if starts_with(request_target(request), "/ping") {
        headers.push("Content-Type: text/plain");
        headers.push("Access-Control-Allow-Origin: *");
        assert(str_views(headers@) =~= seq![
            "Content-Type: text/plain"@,
            "Access-Control-Allow-Origin: *"@,
        ]);
        http_response("204 No Content", &headers, "")
    } else {
        headers.push("Content-Type: text/html");
        headers.push("Access-Control-Allow-Origin: *");
        assert(str_views(headers@) =~= seq![
            "Content-Type: text/html"@,
            "Access-Control-Allow-Origin: *"@,
        ]);
        let page = delayed_login_page(render_delay_ms, ping_interval_ms);
        http_response("200 OK", &headers, page.as_str())
    }
}

/// Whether a request is for a document, which is all but the icon.
pub open spec fn document_request(request: Seq<char>) -> bool {
    !"/favicon"@.is_prefix_of(target(request))
}

/// The answer of an application whose login form appears once asked for, and
/// whether the request counts as one for a document.
pub fn stateful_login_response(request: &str) -> (r: (bool, String))
    ensures
        r.0 == document_request(request@),
        r.1@ == html(STATEFUL_LOGIN@),
{
    (!starts_with(request_target(request), "/favicon"), html_response(STATEFUL_LOGIN))
}

/// How many of the requests are for documents.
pub open spec fn documents_in(requests: Seq<Seq<char>>) -> nat
    decreases requests.len(),
{
    if requests.len() == 0 {
        0
    } else {
        documents_in(requests.drop_last()) + if document_request(requests.last()) {
            1nat
        } else {
            0nat
        }
    }
}

/// How many of the requests are for the icon.
pub open spec fn icons_in(requests: Seq<Seq<char>>) -> nat
    decreases requests.len(),
{
    if requests.len() == 0 {
        0
    } else {
        icons_in(requests.drop_last()) + if document_request(requests.last()) {
            0nat
        } else {
            1nat
        }
    }
}

/// What a counter shows after one more request. One that is full begins anew.
pub open spec fn counted(documents: usize, request: Seq<char>) -> usize {
    if !document_request(request) {
        documents
    } else if documents == usize::MAX {
        0
    } else {
        (documents + 1) as usize
    }
}

/// What a counter shows after a series of requests.
pub open spec fn counted_all(documents: usize, requests: Seq<Seq<char>>) -> usize
    decreases requests.len(),
{
    if requests.len() == 0 {
        documents
    } else {
        counted(counted_all(documents, requests.drop_last()), requests.last())
    }
}

/// An application whose login form appears once asked for. It counts the
/// requests for documents, so that a run can tell whether its page was loaded
/// again.
#[derive(Debug, PartialEq)]
pub struct StatefulLogin {
    pub documents: usize,
}

impl StatefulLogin {
    /// An application that nothing was asked of yet.
    pub fn new() -> (r: StatefulLogin)
        ensures
            r.documents == 0,
    {
        StatefulLogin { documents: 0 }
    }

    /// Answers a request, and counts it where it is for a document.
    pub fn answer(&mut self, request: &str) -> (r: String)
        ensures
            final(self).documents == counted(old(self).documents, request@),
            r@ == html(STATEFUL_LOGIN@),
    {
        let (document, response) = stateful_login_response(request);
        if document {
            self.documents = self.documents.wrapping_add(1);
        }
        response
    }
}

/// Every request is for a document or for the icon.
pub proof fn documents_and_icons_are_all(requests: Seq<Seq<char>>)
    ensures
        documents_in(requests) + icons_in(requests) == requests.len(),
    decreases requests.len(),
{
    if requests.len() > 0 {
        documents_and_icons_are_all(requests.drop_last());
    }
}

/// From its start on the application's counter shows how many requests there
/// were, less those for the icon.
pub proof fn the_counter_leaves_out_the_icons(requests: Seq<Seq<char>>)
    requires
        requests.len() <= usize::MAX,
    ensures
        counted_all(0, requests) == requests.len() - icons_in(requests),
    decreases requests.len(),
{
    documents_and_icons_are_all(requests);
    if requests.len() > 0 {
        documents_and_icons_are_all(requests.drop_last());
        the_counter_leaves_out_the_icons(requests.drop_last());
    }
}

/// A counter that shows the same after a series of requests as before it tells
/// that none of them was for a document.
pub proof fn an_unchanged_counter_shows_no_document(documents: usize, requests: Seq<Seq<char>>)
    requires
        requests.len() <= usize::MAX,
        counted_all(documents, requests) == documents,
    ensures
        forall|i: int| 0 <= i < requests.len() ==> !document_request(#[trigger] requests[i]),
{
    lemma_counted_all(documents, requests);
    lemma_no_documents(requests);
}

proof fn lemma_counted_all(documents: usize, requests: Seq<Seq<char>>)
    requires
        requests.len() <= usize::MAX,
    ensures
        ({
            let sum = documents + documents_in(requests);
            counted_all(documents, requests) == if sum <= usize::MAX {
                sum
            } else {
                sum - usize::MAX - 1
            }
        }),
    decreases requests.len(),
{
    if requests.len() > 0 {
        lemma_no_documents(requests.drop_last());
        lemma_counted_all(documents, requests.drop_last());
    }
}

proof fn lemma_no_documents(requests: Seq<Seq<char>>)
    ensures
        documents_in(requests) <= requests.len(),
        documents_in(requests) == 0 ==> forall|i: int|
            0 <= i < requests.len() ==> !document_request(#[trigger] requests[i]),
    decreases requests.len(),
{
    if requests.len() > 0 {
        let earlier = requests.drop_last();
        lemma_no_documents(earlier);
        if documents_in(requests) == 0 {
            assert forall|i: int| 0 <= i < requests.len() implies !document_request(
                #[trigger] requests[i],
            ) by {
                if i < earlier.len() {
                    assert(earlier[i] == requests[i]);
                }
            }
        }
    }
}

/// The part of a target that comes before its query.
pub open spec fn path_of(request_target: Seq<char>) -> Seq<char> {
    match halves(request_target, "?"@) {
        Some((path, _)) => path,
        None => request_target,
    }
}

/// The answer of a server whose pages navigate: `/redirect/..` leads to
/// `/landed/..`, and all pages but `/child` hold a frame.
pub open spec fn navigation(request: Seq<char>) -> Seq<char> {
    let path = path_of(target(request));
    if "/redirect/"@.is_prefix_of(path) {
        response(
            "302 Found"@,
            seq!["Location: /landed/"@ + path.skip("/redirect/"@.len() as int)],
            ""@,
        )
    } else if path == "/child"@ {
        html("<!doctype html><title>child</title><p id=\"child\">child</p>"@)
    } else {
        html(
            "<!doctype html><title>main</title><a id=\"anchor\" href=\"#section\">anchor</a><div id=\"section\">section</div><iframe id=\"child\" src=\"/child\"></iframe>"@,
        )
    }
}

/// The answer of a server whose pages navigate.
pub fn navigation_response(request: &str) -> (r: String)
    ensures
        r@ == navigation(request@),
{
    let asked = request_target(request);
    let path = match split_at_first(asked, "?") {
        Some((before, _)) => before,
        None => asked,
    };
    if starts_with(path, "/redirect/") {
        proof {
            reveal_strlit("/redirect/");
        }
        let destination = path.substring_char(10, crate::text::chars_of(path).len());
        assert(destination@ =~= path@.skip(10));
        let location = "Location: /landed/".to_owned().concat(destination);
        let mut headers: Vec<&str> = Vec::new();
        headers.push(location.as_str());
        assert(str_views(headers@) =~= seq!["Location: /landed/"@ + path@.skip(10)]);
        http_response("302 Found", &headers, "")
    } else if same_text(path, "/child") {
        html_response("<!doctype html><title>child</title><p id=\"child\">child</p>")
    } else {
        html_response(
            "<!doctype html><title>main</title><a id=\"anchor\" href=\"#section\">anchor</a><div id=\"section\">section</div><iframe id=\"child\" src=\"/child\"></iframe>",
        )
    }
}

/// A page that speaks of the port it is served on.
pub open spec fn with_port(template: Seq<char>, port: nat) -> Seq<char> {
    filled(template, seq![("{port}"@, decimal(port))])
}

fn page_with_port(template: &str, port: u16) -> (r: String)
    ensures
        r@ == with_port(template@, port as nat),
{
    let number = decimal_text(port as u128);
    let mut fields: Vec<(&str, &str)> = Vec::new();
    fields.push(("{port}", number.as_str()));
    assert(field_views(fields@) =~= seq![("{port}"@, number@)]);
    fill(template, &fields)
}

/// The page under a path of the server of nested frames, if there is one.
pub open spec fn nested_frame_page(path: Seq<char>, port: nat) -> Option<Seq<char>> {
    if path == "/top"@ {
        Some(with_port(A11Y_TOP@, port))
    } else if path == "/outer"@ {
        Some(A11Y_OUTER@)
    } else if path == "/inner"@ {
        Some(A11Y_INNER@)
    } else if path == "/siblings"@ {
        Some(with_port(A11Y_SIBLINGS@, port))
    } else if path == "/first-frame"@ {
        Some(A11Y_FIRST_FRAME@)
    } else if path == "/second-frame"@ {
        Some(A11Y_SECOND_FRAME@)
    } else if path == "/background"@ {
        Some(with_port(A11Y_BACKGROUND@, port))
    } else if path == "/background-frame"@ {
        Some(A11Y_BACKGROUND_FRAME@)
    } else {
        None
    }
}

/// The answer of the server of nested frames: a page, or that there is none.
pub open spec fn nested_frames(request: Seq<char>, port: nat) -> Seq<char> {
    match nested_frame_page(target(request), port) {
        Some(page) => html(page),
        None => response("404 Not Found"@, seq!["Content-Type: text/plain"@], "not found"@),
    }
}

/// The answer of the server of nested frames, which listens on `port`.
pub fn nested_frames_response(request: &str, port: u16) -> (r: String)
    ensures
        r@ == nested_frames(request@, port as nat),
{
    let path = request_target(request);
    if same_text(path, "/top") {
        html_response(page_with_port(A11Y_TOP, port).as_str())
    } else if same_text(path, "/outer") {
        html_response(A11Y_OUTER)
    } else if same_text(path, "/inner") {
        html_response(A11Y_INNER)
    } else if same_text(path, "/siblings") {
        html_response(page_with_port(A11Y_SIBLINGS, port).as_str())
    } else if same_text(path, "/first-frame") {
        html_response(A11Y_FIRST_FRAME)
    } else if same_text(path, "/second-frame") {
        html_response(A11Y_SECOND_FRAME)
    } else if same_text(path, "/background") {
        html_response(page_with_port(A11Y_BACKGROUND, port).as_str())
    } else if same_text(path, "/background-frame") {
        html_response(A11Y_BACKGROUND_FRAME)
    } else {
        let mut headers: Vec<&str> = Vec::new();
        headers.push("Content-Type: text/plain");
        assert(str_views(headers@) =~= seq!["Content-Type: text/plain"@]);
        http_response("404 Not Found", &headers, "not found")
    }
}

/// A redirect leads to a page: what it points to is no redirect itself.
pub proof fn redirects_land(request: Seq<char>, next: Seq<char>)
    requires
        "/redirect/"@.is_prefix_of(path_of(target(request))),
        path_of(target(next)) == "/landed/"@ + path_of(target(request)).skip(
            "/redirect/"@.len() as int,
        ),
    ensures
        navigation(next) == html(
            "<!doctype html><title>main</title><a id=\"anchor\" href=\"#section\">anchor</a><div id=\"section\">section</div><iframe id=\"child\" src=\"/child\"></iframe>"@,
        ),
{
    reveal_strlit("/redirect/");
    reveal_strlit("/landed/");
    reveal_strlit("/child");
    let path = path_of(target(next));
    assert(path[1] == 'l');
    if "/redirect/"@.is_prefix_of(path) {
        assert(path.subrange(0, 10)[1] == "/redirect/"@[1]);
    }
    assert("/child"@[1] == 'c');
}

/// The cookie that a login sets is one that the application knows when it is
/// brought back, whatever the case of the header's name.
pub proof fn login_is_remembered(request: Seq<char>, i: int, name: Seq<char>, rest: Seq<char>)
    requires
        !"/login"@.is_prefix_of(target(request)),
        0 <= i < text_lines(request).len(),
        text_lines(request)[i] == name + " next_dev_loop_auth=1"@ + rest,
        name.map_values(|c: char| crate::scan::small(c)) == "cookie:"@,
    ensures
        cookie_login(request) == html(
            "<!doctype html><title>Home</title><main>Welcome back</main>"@,
        ),
{
    let line = text_lines(request)[i];
    let low = line.map_values(|c: char| crate::scan::small(c));
    let low_name = name.map_values(|c: char| crate::scan::small(c));
    assert(low_name.len() == name.len());
    assert(low.subrange(0, name.len() as int) =~= low_name) by {
        assert forall|k: int| 0 <= k < name.len() implies low[k] == low_name[k] by {
            assert(line[k] == name[k]);
        }
    }
    reveal_strlit(" next_dev_loop_auth=1");
    reveal_strlit("next_dev_loop_auth=1");
    let at = name.len() as int + 1;
    assert(line.subrange(at, at + 20) =~= "next_dev_loop_auth=1"@);
    assert(crate::scan::occurs_at(line, "next_dev_loop_auth=1"@, at));
    assert(login_cookie(line));
}

proof fn lemma_prefix_of_sum(front: Seq<char>, rest: Seq<char>)
    ensures
        front.is_prefix_of(front + rest),
{
    assert((front + rest).subrange(0, front.len() as int) =~= front);
}

/// Pages of markup are successes that say so, the shared ones with leave to share
/// their process.
pub proof fn pages_are_successes(body: Seq<char>)
    ensures
        html(body) == response("200 OK"@, seq!["Content-Type: text/html"@], body),
        shared_html(body) == response(
            "200 OK"@,
            seq!["Content-Type: text/html"@, "Origin-Agent-Cluster: ?0"@],
            body,
        ),
{
}

/// A request for `/child`, and only one that begins with just that, gets the
/// child's page; all others get the parent's.
pub proof fn children_are_served_by_their_path(
    request: Seq<char>,
    rest: Seq<char>,
    parent: Seq<char>,
    child: Seq<char>,
)
    ensures
        framed("GET /child "@ + rest, parent, child) == shared_html(child),
        !"GET /child "@.is_prefix_of(request) ==> framed(request, parent, child) == shared_html(
            parent,
        ),
{
    lemma_prefix_of_sum("GET /child "@, rest);
}

/// The page under a path is the last that was listed for it; a path for which
/// none was listed has an empty one.
pub proof fn the_last_page_of_a_path_counts(pages: Seq<PageView>, path: Seq<char>, k: int)
    ensures
        0 <= k < pages.len() && pages[k].0 == path && (forall|i: int|
            k < i < pages.len() ==> (#[trigger] pages[i]).0 != path) ==> page_at(pages, path)
            == pages[k].1,
        (forall|i: int| 0 <= i < pages.len() ==> (#[trigger] pages[i]).0 != path) ==> page_at(
            pages,
            path,
        ).len() == 0,
    decreases pages.len(),
{
    reveal_strlit("");
    if pages.len() > 0 {
        let rest = pages.drop_last();
        if pages.last().0 != path {
            the_last_page_of_a_path_counts(rest, path, k);
            assert(forall|i: int| 0 <= i < rest.len() ==> rest[i] == pages[i]);
            if 0 <= k < pages.len() && pages[k].0 == path && (forall|i: int|
                k < i < pages.len() ==> (#[trigger] pages[i]).0 != path) {
                assert(k < rest.len());
                assert forall|i: int| k < i < rest.len() implies (#[trigger] rest[i]).0 != path by {
                    assert(rest[i] == pages[i]);
                }
            }
            if forall|i: int| 0 <= i < pages.len() ==> (#[trigger] pages[i]).0 != path {
                assert forall|i: int| 0 <= i < rest.len() implies (#[trigger] rest[i]).0 != path by {
                    assert(rest[i] == pages[i]);
                }
            }
        } else {
            assert(pages[pages.len() - 1].0 == path);
        }
    }
}

/// A header line with a name and a value adds that member, in place of one of
/// that name.
pub proof fn headers_add_their_member(
    seen: Map<Seq<char>, JsonView>,
    name: Seq<char>,
    value: Seq<char>,
    rest: Seq<Seq<char>>,
)
    requires
        forall|k: int|
            0 <= k < name.len() ==> !crate::scan::occurs_at(name + ": "@ + value, ": "@, k),
    ensures
        headers_after(seen, seq![name + ": "@ + value] + rest) == headers_after(
            seen.insert(name, JsonView::Text(value)),
            rest,
        ),
{
    crate::scan::the_first_separator_parts(name, ": "@, value);
    lemma_one_header(seen, name + ": "@ + value, rest);
    reveal_strlit(": ");
}

proof fn lemma_one_header(
    seen: Map<Seq<char>, JsonView>,
    line: Seq<char>,
    rest: Seq<Seq<char>>,
)
    ensures
        headers_after(seen, seq![line] + rest) == if line.len() == 0 {
            seen
        } else {
            headers_after(
                match halves(line, ": "@) {
                    Some((name, value)) => seen.insert(name, JsonView::Text(value)),
                    None => seen,
                },
                rest,
            )
        },
{
    assert((seq![line] + rest).drop_first() =~= rest);
}

/// A line without a colon and a blank says nothing; an empty one ends the
/// headers, whatever follows.
pub proof fn other_lines_add_nothing(
    seen: Map<Seq<char>, JsonView>,
    line: Seq<char>,
    rest: Seq<Seq<char>>,
)
    ensures
        line.len() > 0 && !occurs(line, ": "@) ==> headers_after(seen, seq![line] + rest)
            == headers_after(seen, rest),
        headers_after(seen, seq![Seq::<char>::empty()] + rest) == seen,
        headers_after(seen, Seq::empty()) == seen,
{
    lemma_one_header(seen, line, rest);
    lemma_one_header(seen, Seq::empty(), rest);
}

/// A request is answered with the headers that follow its first line, under one
/// name and with nothing beside.
pub proof fn the_echo_holds_the_headers(first: Seq<char>, rest: Seq<char>)
    requires
        !first.contains('\n'),
    ensures
        echoed(first + seq!['\r', '\n'] + rest) matches JsonView::Object(members)
            && members.contains_key("headers"@) && members["headers"@] == JsonView::Object(
            headers_after(Map::empty(), text_lines(rest)),
        ) && forall|name: Seq<char>| #[trigger] members.contains_key(name) ==> name == "headers"@,
{
    crate::scan::lines_are_parted_by_line_feeds(first, rest);
    assert((seq![first] + text_lines(rest)).drop_first() =~= text_lines(rest));
}

/// Pages with tools are found by the path of the request, and all other requests
/// get the one that probes.
pub proof fn tools_are_served_by_their_path(request: Seq<char>, rest: Seq<char>)
    ensures
        tool_page("GET /frame.html "@ + rest) == ToolPage::Frame,
        tool_page("GET /context.html "@ + rest) == ToolPage::Context,
        tool_page("GET /empty.html "@ + rest) == ToolPage::Empty,
        tool_page("GET /delayed.html "@ + rest) == ToolPage::Delayed,
        !"GET /frame.html "@.is_prefix_of(request) && !"GET /context.html "@.is_prefix_of(request)
            && !"GET /empty.html "@.is_prefix_of(request) && !"GET /delayed.html "@.is_prefix_of(
            request,
        ) ==> tool_page(request) == ToolPage::Probe,
{
    reveal_strlit("GET /frame.html ");
    reveal_strlit("GET /context.html ");
    reveal_strlit("GET /empty.html ");
    reveal_strlit("GET /delayed.html ");
    lemma_prefix_of_sum("GET /frame.html "@, rest);
    lemma_prefix_of_sum("GET /context.html "@, rest);
    lemma_prefix_of_sum("GET /empty.html "@, rest);
    lemma_prefix_of_sum("GET /delayed.html "@, rest);
    assert forall|path: Seq<char>, whole: Seq<char>| #[trigger]
        path.is_prefix_of(whole) && path.len() > 5 implies whole[5] == path[5] by {
        assert(whole.subrange(0, path.len() as int)[5] == whole[5]);
    }
    assert(("GET /context.html "@ + rest)[5] == 'c');
    assert(("GET /empty.html "@ + rest)[5] == 'e');
    assert(("GET /delayed.html "@ + rest)[5] == 'd');
}

/// The pages that speak of their port have its digits wherever they leave room for
/// them; the others are as their fixtures are, and the empty one is its own.
pub proof fn tools_know_their_port(fixture: Seq<char>, port: nat)
    ensures
        tool_markup(ToolPage::Frame, fixture, port) == replaced(
            fixture,
            "__PORT__"@,
            decimal(port),
        ),
        tool_markup(ToolPage::Probe, fixture, port) == replaced(
            fixture,
            "__PORT__"@,
            decimal(port),
        ),
        tool_markup(ToolPage::Context, fixture, port) == fixture,
        tool_markup(ToolPage::Delayed, fixture, port) == fixture,
        tool_markup(ToolPage::Empty, fixture, port)
            == "<!doctype html><title>No page tools</title>"@,
{
}

/// A request for the login, and for anything below it, sets the cookie; any other
/// is welcomed back exactly if one of its lines brings the cookie.
pub proof fn logins_set_the_cookie(request: Seq<char>)
    ensures
        "/login"@.is_prefix_of(target(request)) ==> cookie_login(request) == response(
            "200 OK"@,
            seq![
                "Content-Type: text/html"@,
                "Set-Cookie: next_dev_loop_auth=1; Path=/; Max-Age=3600; SameSite=Lax"@,
            ],
            "<!doctype html><title>Logged in</title><main>Login complete</main>"@,
        ),
        !"/login"@.is_prefix_of(target(request)) ==> cookie_login(request) == html(
            if exists|i: int|
                0 <= i < text_lines(request).len() && begins_like(
                    #[trigger] text_lines(request)[i],
                    "cookie:"@,
                ) && occurs(text_lines(request)[i], "next_dev_loop_auth=1"@) {
                "<!doctype html><title>Home</title><main>Welcome back</main>"@
            } else {
                "<!doctype html><title>Home</title><main>Please sign in</main>"@
            },
        ),
{
    if exists|i: int|
        0 <= i < text_lines(request).len() && begins_like(
            #[trigger] text_lines(request)[i],
            "cookie:"@,
        ) && occurs(text_lines(request)[i], "next_dev_loop_auth=1"@) {
        let i = choose|i: int|
            0 <= i < text_lines(request).len() && begins_like(
                #[trigger] text_lines(request)[i],
                "cookie:"@,
            ) && occurs(text_lines(request)[i], "next_dev_loop_auth=1"@);
        assert(login_cookie(text_lines(request)[i]));
    }
}

/// The late login answers pings with nothing, and everything else with its page.
pub proof fn pings_get_nothing(request: Seq<char>, delay: nat, interval: nat)
    ensures
        slow_login(request, delay, interval) == if "/ping"@.is_prefix_of(target(request)) {
            response(
                "204 No Content"@,
                seq!["Content-Type: text/plain"@, "Access-Control-Allow-Origin: *"@],
                ""@,
            )
        } else {
            response(
                "200 OK"@,
                seq!["Content-Type: text/html"@, "Access-Control-Allow-Origin: *"@],
                delayed_login(delay, interval),
            )
        },
{
}

/// Every request is for a document but those for the icon and for anything whose
/// path begins like its.
pub proof fn icons_are_no_documents(request: Seq<char>, rest: Seq<char>)
    ensures
        target(request) == "/favicon"@ + rest ==> !document_request(request),
        !"/favicon"@.is_prefix_of(target(request)) ==> document_request(request),
{
    lemma_prefix_of_sum("/favicon"@, rest);
}

/// The path of a target is what comes before the first question mark.
pub proof fn queries_are_no_part_of_the_path(path: Seq<char>, query: Seq<char>)
    requires
        !path.contains('?'),
    ensures
        path_of(path) == path,
        path_of(path + seq!['?'] + query) == path,
{
    reveal_strlit("?");
    assert("?"@ =~= seq!['?']);
    let full = path + "?"@ + query;
    if occurs(path, "?"@) {
        let i = choose|i: int| crate::scan::occurs_at(path, "?"@, i);
        assert(path.subrange(i, i + 1)[0] == '?');
        assert(path[i] == '?');
    }
    assert forall|k: int| 0 <= k < path.len() implies !crate::scan::occurs_at(full, "?"@, k) by {
        if crate::scan::occurs_at(full, "?"@, k) {
            assert(full.subrange(k, k + 1)[0] == '?');
            assert(path[k] == '?');
        }
    }
    crate::scan::the_first_separator_parts(path, "?"@, query);
}

/// A redirect points to what it was asked for, under the pages where one lands,
/// and has no body; the child has its own page; everything else gets the main one.
pub proof fn navigation_goes_by_the_path(request: Seq<char>, rest: Seq<char>)
    ensures
        path_of(target(request)) == "/redirect/"@ + rest ==> navigation(request) == response(
            "302 Found"@,
            seq!["Location: /landed/"@ + rest],
            ""@,
        ),
        path_of(target(request)) == "/child"@ ==> navigation(request) == html(
            "<!doctype html><title>child</title><p id=\"child\">child</p>"@,
        ),
        !"/redirect/"@.is_prefix_of(path_of(target(request))) && path_of(target(request))
            != "/child"@ ==> navigation(request) == html(
            "<!doctype html><title>main</title><a id=\"anchor\" href=\"#section\">anchor</a><div id=\"section\">section</div><iframe id=\"child\" src=\"/child\"></iframe>"@,
        ),
{
    lemma_prefix_of_sum("/redirect/"@, rest);
    assert(("/redirect/"@ + rest).skip("/redirect/"@.len() as int) =~= rest);
    reveal_strlit("/redirect/");
    reveal_strlit("/child");
    if "/redirect/"@.is_prefix_of("/child"@) {
        assert("/redirect/"@.len() <= "/child"@.len());
    }
}

/// The nested frames have a page for each of eight paths, those that show frames
/// with the port filled in; any other path is not found.
pub proof fn nested_frames_go_by_the_path(request: Seq<char>, port: nat)
    ensures
        ({
            let path = target(request);
            let here = seq![("{port}"@, decimal(port))];
            let answer = nested_frames(request, port);
            &&& path == "/top"@ ==> answer == html(filled(A11Y_TOP@, here))
            &&& path == "/outer"@ ==> answer == html(A11Y_OUTER@)
            &&& path == "/inner"@ ==> answer == html(A11Y_INNER@)
            &&& path == "/siblings"@ ==> answer == html(filled(A11Y_SIBLINGS@, here))
            &&& path == "/first-frame"@ ==> answer == html(A11Y_FIRST_FRAME@)
            &&& path == "/second-frame"@ ==> answer == html(A11Y_SECOND_FRAME@)
            &&& path == "/background"@ ==> answer == html(filled(A11Y_BACKGROUND@, here))
            &&& path == "/background-frame"@ ==> answer == html(A11Y_BACKGROUND_FRAME@)
            &&& path != "/top"@ && path != "/outer"@ && path != "/inner"@ && path != "/siblings"@
                && path != "/first-frame"@ && path != "/second-frame"@ && path != "/background"@
                && path != "/background-frame"@ ==> answer == response(
                "404 Not Found"@,
                seq!["Content-Type: text/plain"@],
                "not found"@,
            )
        }),
{
    reveal_strlit("/top");
    reveal_strlit("/outer");
    reveal_strlit("/inner");
    reveal_strlit("/siblings");
    reveal_strlit("/first-frame");
    reveal_strlit("/second-frame");
    reveal_strlit("/background");
    reveal_strlit("/background-frame");
    assert("/top"@.len() == 4 && "/outer"@.len() == 6 && "/inner"@.len() == 6);
    assert("/siblings"@.len() == 9 && "/first-frame"@.len() == 12);
    assert("/second-frame"@.len() == 13 && "/background"@.len() == 11);
    assert("/background-frame"@.len() == 17);
    assert("/outer"@[1] == 'o' && "/inner"@[1] == 'i');
}

} // verus!
