//! What the messages of the daemon's stream say.

use crate::e2e::replies::has_text;
use crate::json::{json_parse, member, text_of, truth, Json, JsonView};
use crate::protocol::holds;
use crate::scan::{contains_text, occurs};
use crate::text::same_text;
use vstd::prelude::*;

verus! {

/// Whether a message is of that type.
pub open spec fn of_type(payload: JsonView, name: Seq<char>) -> bool {
    text_of(member(payload, "type"@)) == Some(name)
}

/// What a message says of the page's address.
pub enum UrlView {
    Other,
    Url(Seq<char>),
    Broken,
}

/// What a message says of the page's address.
#[derive(Debug, PartialEq)]
pub enum UrlMessage {
    /// The message is about something else.
    Other,
    Url(String),
    /// The message cannot be read, or lacks the address that it is about.
    Broken,
}

impl View for UrlMessage {
    type V = UrlView;

    open spec fn view(&self) -> UrlView {
        match self {
            UrlMessage::Other => UrlView::Other,
            UrlMessage::Url(url) => UrlView::Url(url@),
            UrlMessage::Broken => UrlView::Broken,
        }
    }
}

/// What a message says of the page's address.
pub open spec fn url_of(payload: JsonView) -> UrlView {
    if of_type(payload, "url"@) {
        match text_of(member(payload, "url"@)) {
            Some(url) => UrlView::Url(url),
            None => UrlView::Broken,
        }
    } else {
        UrlView::Other
    }
}

/// What a message says of the page's address.
pub fn stream_url(payload: &Json) -> (r: UrlMessage)
    ensures
        r@ == url_of(payload@),
{
    if !has_text(payload, "type", "url") {
        return UrlMessage::Other;
    }
    match payload.get("url") {
        Some(value) => match value.as_text() {
            Some(url) => UrlMessage::Url(url.to_owned()),
            None => UrlMessage::Broken,
        },
        None => UrlMessage::Broken,
    }
}

/// What the text of a message says of the page's address.
pub fn next_stream_url(message: &str) -> (r: UrlMessage)
    ensures
        r@ == match json_parse(message@) {
            Ok(payload) => url_of(payload),
            Err(_) => UrlView::Broken,
        },
{
    match Json::parse(message) {
        Ok(payload) => stream_url(&payload),
        Err(_) => UrlMessage::Broken,
    }
}

/// Whether a message is about an address at all.
pub fn is_url_message(payload: &Json) -> (r: bool)
    ensures
        r == of_type(payload@, "url"@),
{
    has_text(payload, "type", "url")
}

fn says(payload: &Json, name: &str) -> (r: bool)
    ensures
        r == (truth(member(payload@, name@)) == Some(true)),
{
    match payload.get(name) {
        Some(value) => match value.as_bool() {
            Some(b) => b,
            None => false,
        },
        None => false,
    }
}

/// Whether a message says that navigation is watched: the stream is connected,
/// and casts the screen.
pub open spec fn ready(payload: JsonView) -> bool {
    &&& of_type(payload, "status"@)
    &&& truth(member(payload, "connected"@)) == Some(true)
    &&& truth(member(payload, "screencasting"@)) == Some(true)
}

/// Whether a message says that navigation is watched.
pub fn navigation_ready(payload: &Json) -> (r: bool)
    ensures
        r == ready(payload@),
{
    has_text(payload, "type", "status") && says(payload, "connected") && says(
        payload,
        "screencasting",
    )
}

/// Whether a tab is the one with that identifier, and active.
pub open spec fn active_tab(tab: JsonView, id: Seq<char>) -> bool {
    text_of(member(tab, "tabId"@)) == Some(id) && truth(member(tab, "active"@)) == Some(true)
}

/// Whether a message lists the tab with that identifier as active.
pub open spec fn lists_active(payload: JsonView, id: Seq<char>) -> bool {
    &&& of_type(payload, "tabs"@)
    &&& match member(payload, "tabs"@) {
        Some(JsonView::Array(tabs)) => exists|i: int|
            0 <= i < tabs.len() && active_tab(#[trigger] tabs[i], id),
        _ => false,
    }
}

/// Whether a message lists the tab with that identifier as active.
pub fn shows_active_tab(payload: &Json, tab_id: &str) -> (r: bool)
    ensures
        r == lists_active(payload@, tab_id@),
{
    if !has_text(payload, "type", "tabs") {
        return false;
    }
    let listed: &Json = match payload.get("tabs") {
        Some(listed) => listed,
        None => {
            return false;
        },
    };
    match listed {
        Json::Array(tabs) => {
            let ghost all = listed@->Array_0;
            let n: usize = tabs.len();
            let mut i: usize = 0;
            while i < n
                invariant
                    i <= n,
                    n == tabs@.len(),
                    n == all.len(),
                    forall|k: int| 0 <= k < n ==> all[k] == #[trigger] tabs@[k]@,
                    of_type(payload@, "tabs"@),
                    member(payload@, "tabs"@) == Some(listed@),
                    listed@ == JsonView::Array(all),
                    forall|k: int| 0 <= k < i ==> !active_tab(#[trigger] all[k], tab_id@),
                decreases n - i,
            {
                let tab = &tabs[i];
                assert(all[i as int] == tab@);
                if has_text(tab, "tabId", tab_id) && says(tab, "active") {
                    assert(match member(payload@, "tabs"@) {
                        Some(JsonView::Array(found)) => active_tab(found[i as int], tab_id@),
                        _ => false,
                    });
                    return true;
                }
                i = i + 1;
            }
            false
        },
        _ => false,
    }
}

/// What a message means to one who waits for an address.
#[derive(Clone, Copy, Debug, PartialEq, Eq, Structural)]
pub enum StreamVerdict {
    /// Nothing yet.
    Wait,
    /// The address is the one waited for.
    Reached,
    /// The address is one that must not come.
    Forbidden,
    /// The message lacks the address that it is about.
    Broken,
}

/// What a message means to one who waits for `expected`, where no address may
/// hold `marker`.
pub open spec fn awaited(payload: JsonView, expected: Seq<char>, marker: Seq<char>) -> StreamVerdict {
    match url_of(payload) {
        UrlView::Other => StreamVerdict::Wait,
        UrlView::Broken => StreamVerdict::Broken,
        UrlView::Url(url) => if occurs(url, marker) {
            StreamVerdict::Forbidden
        } else if url == expected {
            StreamVerdict::Reached
        } else {
            StreamVerdict::Wait
        },
    }
}

/// What a message means to one who waits for `expected`, where no address may
/// hold `marker`.
pub fn awaited_url(payload: &Json, expected: &str, marker: &str) -> (r: StreamVerdict)
    ensures
        r == awaited(payload@, expected@, marker@),
{
    match stream_url(payload) {
        UrlMessage::Other => StreamVerdict::Wait,
        UrlMessage::Broken => StreamVerdict::Broken,
        UrlMessage::Url(url) => if contains_text(url.as_str(), marker) {
            StreamVerdict::Forbidden
        } else if same_text(url.as_str(), expected) {
            StreamVerdict::Reached
        } else {
            StreamVerdict::Wait
        },
    }
}

/// What a message means to one who waits for no address, where none may hold
/// `marker`.
pub open spec fn strayed(payload: JsonView, marker: Seq<char>) -> StreamVerdict {
    match url_of(payload) {
        UrlView::Other => StreamVerdict::Wait,
        UrlView::Broken => StreamVerdict::Broken,
        UrlView::Url(url) => if occurs(url, marker) {
            StreamVerdict::Forbidden
        } else {
            StreamVerdict::Wait
        },
    }
}

/// What a message means to one who waits for no address, where none may hold
/// `marker`.
pub fn stray_url(payload: &Json, marker: &str) -> (r: StreamVerdict)
    ensures
        r == strayed(payload@, marker@),
{
    match stream_url(payload) {
        UrlMessage::Other => StreamVerdict::Wait,
        UrlMessage::Broken => StreamVerdict::Broken,
        UrlMessage::Url(url) => if contains_text(url.as_str(), marker) {
            StreamVerdict::Forbidden
        } else {
            StreamVerdict::Wait
        },
    }
}

/// What a message says of the open tabs.
#[derive(Debug, PartialEq)]
pub enum TabsMessage<'a> {
    /// The message is about something else.
    Other,
    Tabs(&'a Vec<Json>),
    /// The message lacks the list that it is about.
    Broken,
}

/// What a message says of the open tabs.
pub fn stream_tabs(payload: &Json) -> (r: TabsMessage<'_>)
    ensures
        match r {
            TabsMessage::Other => !of_type(payload@, "tabs"@),
            TabsMessage::Tabs(tabs) => of_type(payload@, "tabs"@) && member(payload@, "tabs"@)
                == Some(Json::Array(*tabs)@),
            TabsMessage::Broken => of_type(payload@, "tabs"@) && !(member(
                payload@,
                "tabs"@,
            ) matches Some(JsonView::Array(_))),
        },
{
    if !has_text(payload, "type", "tabs") {
        return TabsMessage::Other;
    }
    match payload.get("tabs") {
        Some(listed) => match listed {
            Json::Array(tabs) => TabsMessage::Tabs(tabs),
            _ => TabsMessage::Broken,
        },
        None => TabsMessage::Broken,
    }
}

/// An address that holds the marker is never the one reached, whatever was
/// waited for.
pub proof fn marked_urls_never_count_as_reached(
    payload: JsonView,
    expected: Seq<char>,
    marker: Seq<char>,
)
    requires
        url_of(payload) matches UrlView::Url(url) && occurs(url, marker),
    ensures
        awaited(payload, expected, marker) == StreamVerdict::Forbidden,
        strayed(payload, marker) == StreamVerdict::Forbidden,
{
}

/// A message is about an address exactly where its type says so; then it says
/// the address, or is broken where it has none.
pub proof fn addresses_come_in_messages_of_their_type(payload: JsonView, url: Seq<char>)
    ensures
        url_of(payload) is Other <==> !holds(payload, "type"@, JsonView::Text("url"@)),
        url_of(payload) == UrlView::Url(url) <==> holds(payload, "type"@, JsonView::Text("url"@))
            && holds(payload, "url"@, JsonView::Text(url)),
        url_of(payload) is Broken <==> holds(payload, "type"@, JsonView::Text("url"@)) && forall|
            address: Seq<char>|
            !#[trigger] holds(payload, "url"@, JsonView::Text(address)),
{
    if url_of(payload) is Url {
        assert(holds(payload, "url"@, JsonView::Text(url_of(payload)->Url_0)));
    }
}

/// Navigation is watched exactly where a status says that the stream is connected
/// and casts the screen.
pub proof fn navigation_is_watched_when_connected_and_casting(payload: JsonView)
    ensures
        ready(payload) <==> holds(payload, "type"@, JsonView::Text("status"@)) && holds(
            payload,
            "connected"@,
            JsonView::Bool(true),
        ) && holds(payload, "screencasting"@, JsonView::Bool(true)),
{
}

/// A tab is active exactly where a list of tabs holds an entry with its
/// identifier that says so, wherever in the list.
pub proof fn active_tabs_are_listed(payload: JsonView, tabs: Seq<JsonView>, id: Seq<char>)
    requires
        holds(payload, "tabs"@, JsonView::Array(tabs)),
    ensures
        lists_active(payload, id) <==> holds(payload, "type"@, JsonView::Text("tabs"@)) && exists|
            i: int|
            0 <= i < tabs.len() && holds(#[trigger] tabs[i], "tabId"@, JsonView::Text(id)) && holds(
                tabs[i],
                "active"@,
                JsonView::Bool(true),
            ),
{
    if lists_active(payload, id) {
        let i = choose|i: int| 0 <= i < tabs.len() && active_tab(#[trigger] tabs[i], id);
        assert(holds(tabs[i], "tabId"@, JsonView::Text(id)));
    }
    if exists|i: int|
        0 <= i < tabs.len() && holds(#[trigger] tabs[i], "tabId"@, JsonView::Text(id)) && holds(
            tabs[i],
            "active"@,
            JsonView::Bool(true),
        ) {
        let i = choose|i: int|
            0 <= i < tabs.len() && holds(#[trigger] tabs[i], "tabId"@, JsonView::Text(id)) && holds(
                tabs[i],
                "active"@,
                JsonView::Bool(true),
            );
        if holds(payload, "type"@, JsonView::Text("tabs"@)) {
            assert(match member(payload, "tabs"@) {
                Some(JsonView::Array(found)) => active_tab(found[i], id),
                _ => false,
            });
        }
    }
}

/// One who waits for an address has reached it with the first message that says
/// it, unless it holds the marker; other addresses and other messages are waited
/// out, and one that lacks its address is broken.
pub proof fn waiting_ends_at_the_address(
    payload: JsonView,
    url: Seq<char>,
    expected: Seq<char>,
    marker: Seq<char>,
)
    ensures
        url_of(payload) == UrlView::Url(url) && !occurs(url, marker) ==> {
            &&& awaited(payload, expected, marker) == if url == expected {
                StreamVerdict::Reached
            } else {
                StreamVerdict::Wait
            }
            &&& strayed(payload, marker) == StreamVerdict::Wait
        },
        url_of(payload) is Other ==> awaited(payload, expected, marker) == StreamVerdict::Wait
            && strayed(payload, marker) == StreamVerdict::Wait,
        url_of(payload) is Broken ==> awaited(payload, expected, marker) == StreamVerdict::Broken
            && strayed(payload, marker) == StreamVerdict::Broken,
{
}

} // verus!
