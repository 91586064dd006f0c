//! The line protocol: one JSON command per line in, one JSON response per line
//! out.

use crate::json::{
    begins_with_capital, json_parse, json_text, member, plain, push_member, reads_as, text_of,
    truth, Json, JsonView, MAX_DEPTH,
};
use crate::text::{all_white, every_text_has_a_core, same_text, starts_with, trim, trimmed};
use vstd::prelude::*;

verus! {

/// The action with which the client asks the daemon itself to stop.
pub const INTERNAL_DAEMON_SHUTDOWN_ACTION: &'static str = "__agent_browser_daemon_shutdown";

/// Whether a line opens an HTTP request: a method name and a space.
pub open spec fn http_line(line: Seq<char>) -> bool {
    ||| "GET "@.is_prefix_of(line)
    ||| "POST "@.is_prefix_of(line)
    ||| "PUT "@.is_prefix_of(line)
    ||| "DELETE "@.is_prefix_of(line)
    ||| "PATCH "@.is_prefix_of(line)
    ||| "HEAD "@.is_prefix_of(line)
    ||| "OPTIONS "@.is_prefix_of(line)
    ||| "CONNECT "@.is_prefix_of(line)
    ||| "TRACE "@.is_prefix_of(line)
}

/// Whether a line opens an HTTP request, as a web page that reaches for the
/// daemon's port would send one.
pub fn looks_like_http(line: &str) -> (r: bool)
    ensures
        r == http_line(line@),
{
    starts_with(line, "GET ") || starts_with(line, "POST ") || starts_with(line, "PUT ")
        || starts_with(line, "DELETE ") || starts_with(line, "PATCH ") || starts_with(line, "HEAD ")
        || starts_with(line, "OPTIONS ") || starts_with(line, "CONNECT ") || starts_with(
        line,
        "TRACE ",
    )
}

/// The actions that may end in the daemon's close.
pub open spec fn closing_action(action: Seq<char>) -> bool {
    action == "close"@ || action == "confirm"@ || action == INTERNAL_DAEMON_SHUTDOWN_ACTION@
}

/// Whether `document` reports success.
pub open spec fn succeeded(document: JsonView) -> bool {
    truth(member(document, "success"@)) == Some(true)
}

/// Whether `document` carries data that says that the browser was closed.
pub open spec fn carries_closed(document: JsonView) -> bool {
    member(document, "data"@) matches Some(data) && truth(member(data, "closed"@)) == Some(true)
}

/// Whether a response to `action` says that the browser was closed: by itself,
/// or by the result of the action that was confirmed.
pub open spec fn close_completed(action: Seq<char>, response: JsonView) -> bool {
    &&& closing_action(action)
    &&& succeeded(response)
    &&& {
        ||| carries_closed(response)
        ||| {
            &&& member(response, "data"@) matches Some(data)
            &&& member(data, "result"@) matches Some(result)
            &&& succeeded(result)
            &&& carries_closed(result)
        }
    }
}

fn is_true(document: &Json, name: &str) -> (r: bool)
    ensures
        r == (truth(member(document@, name@)) == Some(true)),
{
    match document.get(name) {
        Some(found) => match found.as_bool() {
            Some(b) => b,
            None => false,
        },
        None => false,
    }
}

/// Whether `document` carries data that says that the browser was closed.
fn data_closed(document: &Json) -> (r: bool)
    ensures
        r == carries_closed(document@),
{
    match document.get("data") {
        Some(data) => is_true(data, "closed"),
        None => false,
    }
}

/// Whether the daemon is to exit: the action was one that closes, and the
/// response says that the browser was closed.
pub fn close_completed_response(action: &str, response: &Json) -> (r: bool)
    ensures
        r == close_completed(action@, response@),
{
    if !(same_text(action, "close") || same_text(action, "confirm") || same_text(
        action,
        INTERNAL_DAEMON_SHUTDOWN_ACTION,
    )) {
        return false;
    }
    if !is_true(response, "success") {
        return false;
    }
    if data_closed(response) {
        return true;
    }
    match response.get("data") {
        Some(data) => match data.get("result") {
            Some(result) => is_true(result, "success") && data_closed(result),
            None => false,
        },
        None => false,
    }
}

/// What a line of input asks for.
pub enum RequestView {
    /// Nothing.
    Blank,
    /// An HTTP request, which is not served.
    Http,
    /// A text that is no JSON, with the complaint.
    Invalid(Seq<char>),
    /// A command, with the name of its action.
    Command(Seq<char>, JsonView),
}

/// What a line of input asks for.
#[derive(Debug, PartialEq)]
pub enum Request {
    /// Nothing.
    Blank,
    /// An HTTP request, which is not served.
    Http,
    /// A text that is no JSON, with the complaint.
    Invalid(String),
    /// A command, with the name of its action.
    Command(String, Json),
}

impl View for Request {
    type V = RequestView;

    open spec fn view(&self) -> RequestView {
        match self {
            Request::Blank => RequestView::Blank,
            Request::Http => RequestView::Http,
            Request::Invalid(message) => RequestView::Invalid(message@),
            Request::Command(action, command) => RequestView::Command(action@, command@),
        }
    }
}

/// The name of a command's action, empty where it has none.
pub open spec fn action_name(command: JsonView) -> Seq<char> {
    match text_of(member(command, "action"@)) {
        Some(name) => name,
        None => Seq::empty(),
    }
}

/// What the outcome of reading a line as JSON asks for.
pub open spec fn parsed_request(parsed: Result<JsonView, Seq<char>>) -> RequestView {
    match parsed {
        Ok(command) => RequestView::Command(action_name(command), command),
        Err(message) => RequestView::Invalid(message),
    }
}

/// What a line of input asks for, white space around it aside.
pub open spec fn request_of(line: Seq<char>) -> RequestView {
    let text = trimmed(line);
    if text.len() == 0 {
        RequestView::Blank
    } else if http_line(text) {
        RequestView::Http
    } else {
        parsed_request(json_parse(text))
    }
}

/// What the outcome of reading a line as JSON asks for.
pub fn read_parsed(parsed: Result<Json, String>) -> (r: Request)
    ensures
        r@ == parsed_request(
            match parsed {
                Ok(command) => Ok(command@),
                Err(message) => Err(message@),
            },
        ),
{
    match parsed {
        Ok(command) => {
            let action: String = match command.get("action") {
                Some(found) => match found.as_text() {
                    Some(name) => name.to_owned(),
                    None => String::new(),
                },
                None => String::new(),
            };
            Request::Command(action, command)
        },
        Err(message) => Request::Invalid(message),
    }
}

/// A line that opens an HTTP request begins with a capital letter, as the names
/// of all methods do.
pub proof fn http_begins_with_a_capital(line: Seq<char>)
    requires
        http_line(line),
    ensures
        begins_with_capital(line),
{
    assert forall|prefix: Seq<char>| #[trigger]
        prefix.is_prefix_of(line) && prefix.len() > 0 implies line[0] == prefix[0] by {
        assert(line.subrange(0, prefix.len() as int)[0] == line[0]);
    }
    reveal_strlit("GET ");
    reveal_strlit("POST ");
    reveal_strlit("PUT ");
    reveal_strlit("DELETE ");
    reveal_strlit("PATCH ");
    reveal_strlit("HEAD ");
    reveal_strlit("OPTIONS ");
    reveal_strlit("CONNECT ");
    reveal_strlit("TRACE ");
}

/// Reads a line as JSON. A line that opens an HTTP request is never read as a
/// document: the guard against HTTP turns away no line that is JSON, whatever
/// methods are named inside its strings.
pub fn parse_line(line: &str) -> (r: Result<Json, String>)
    ensures
        match r {
            Ok(json) => json_parse(line@) == Ok::<JsonView, Seq<char>>(json@),
            Err(message) => json_parse(line@) == Err::<JsonView, Seq<char>>(message@),
        },
        r is Ok ==> !http_line(line@),
{
    proof {
        if http_line(line@) {
            http_begins_with_a_capital(line@);
        }
    }
    Json::parse(line)
}

/// What a line of input asks for.
pub fn read_request(line: &str) -> (r: Request)
    ensures
        r@ == request_of(line@),
{
    let text = trim(line);
    if text.is_empty() {
        Request::Blank
    } else if looks_like_http(text) {
        Request::Http
    } else {
        read_parsed(parse_line(text))
    }
}

/// The response to a text that is no JSON.
pub open spec fn invalid_json_view(message: Seq<char>) -> JsonView {
    JsonView::Object(
        Map::empty().insert("success"@, JsonView::Bool(false)).insert(
            "error"@,
            JsonView::Text("Invalid JSON: "@ + message),
        ),
    )
}

/// The response to a text that is no JSON.
pub fn invalid_json_response(message: &str) -> (r: Json)
    ensures
        r@ == invalid_json_view(message@),
{
    let mut error = "Invalid JSON: ".to_owned();
    error.append(message);
    let mut members: Vec<(String, Json)> = Vec::new();
    push_member(&mut members, "success", Json::Bool(false));
    push_member(&mut members, "error", Json::Text(error));
    Json::Object(members)
}

/// The line that carries a response.
pub open spec fn frame(response: JsonView) -> Seq<char> {
    json_text(response).push('\n')
}

/// Whether a text is one whole line: a line feed ends it, and it holds no other.
pub open spec fn whole_line(line: Seq<char>) -> bool {
    &&& line.len() > 0
    &&& line.last() == '\n'
    &&& forall|i: int| 0 <= i < line.len() - 1 ==> line[i] != '\n'
}

/// Whether a line carries a response: it is whole, and what comes before its
/// line feed reads as the response, where that is plain.
pub open spec fn carries(line: Seq<char>, response: JsonView) -> bool {
    &&& line == frame(response)
    &&& whole_line(line)
    &&& plain(response, MAX_DEPTH as nat) ==> reads_as(line.drop_last(), response)
}

/// The line that carries a response.
pub fn response_frame(response: Json) -> (r: String)
    ensures
        carries(r@, response@),
{
    let mut line = response.into_text();
    let ghost text = line@;
    line.push('\n');
    assert(line@.drop_last() =~= text);
    assert forall|i: int| 0 <= i < line@.len() - 1 implies line@[i] != '\n' by {
        assert(text.contains(text[i]));
    }
    line
}

/// How many characters come before the first line feed.
pub open spec fn line_length(s: Seq<char>) -> nat
    decreases s.len(),
{
    if s.len() == 0 || s[0] == '\n' {
        0
    } else {
        1 + line_length(s.drop_first())
    }
}

/// The complete lines of a stream, without their line feeds.
pub open spec fn lines_of(s: Seq<char>) -> Seq<Seq<char>>
    decreases s.len(),
{
    let n = line_length(s);
    if n < s.len() {
        seq![s.take(n as int)] + lines_of(s.skip(n as int + 1))
    } else {
        Seq::empty()
    }
}

/// All that is written for a series of responses.
pub open spec fn frames(responses: Seq<JsonView>) -> Seq<char>
    decreases responses.len(),
{
    if responses.len() == 0 {
        Seq::empty()
    } else {
        frame(responses[0]) + frames(responses.drop_first())
    }
}

proof fn lemma_line_length(text: Seq<char>, rest: Seq<char>)
    requires
        !text.contains('\n'),
    ensures
        line_length(text.push('\n') + rest) == text.len(),
    decreases text.len(),
{
    let s = text.push('\n') + rest;
    if text.len() > 0 {
        assert(text.contains(text[0]));
        assert(s[0] == text[0]);
        assert(s.drop_first() == text.drop_first().push('\n') + rest);
        assert forall|i: int| 0 <= i < text.drop_first().len() implies text.drop_first()[i]
            != '\n' by {
            assert(text.contains(text[i + 1]));
        }
        lemma_line_length(text.drop_first(), rest);
    }
}

/// A client that reads lines gets back the text of every response, each whole
/// and in order. That a line is whole is what writing it ensures.
pub proof fn responses_read_back(responses: Seq<JsonView>)
    requires
        forall|i: int| 0 <= i < responses.len() ==> whole_line(#[trigger] frame(responses[i])),
    ensures
        lines_of(frames(responses)) == responses.map_values(|response: JsonView| json_text(response)),
    decreases responses.len(),
{
    let texts = responses.map_values(|response: JsonView| json_text(response));
    if responses.len() == 0 {
        assert(lines_of(frames(responses)) =~= texts);
    } else {
        let text = json_text(responses[0]);
        let rest = responses.drop_first();
        let s = frames(responses);
        assert(whole_line(frame(responses[0])));
        assert forall|i: int| 0 <= i < text.len() implies text[i] != '\n' by {
            assert(frame(responses[0])[i] == text[i]);
        }
        lemma_line_length(text, frames(rest));
        assert(s.take(text.len() as int) =~= text);
        assert(s.skip(text.len() as int + 1) =~= frames(rest));
        assert forall|i: int| 0 <= i < rest.len() implies whole_line(
            #[trigger] frame(rest[i]),
        ) by {
            assert(whole_line(frame(responses[i + 1])));
        }
        responses_read_back(rest);
        assert(lines_of(s) =~= texts);
    }
}

/// A client that reads lines and takes each for a document gets back every
/// response, in order, where all are plain. That a line carries its response is
/// what writing it ensures.
pub proof fn clients_get_the_responses(responses: Seq<JsonView>)
    requires
        forall|i: int|
            0 <= i < responses.len() ==> carries(#[trigger] frame(responses[i]), responses[i])
                && plain(responses[i], MAX_DEPTH as nat),
    ensures
        lines_of(frames(responses)).len() == responses.len(),
        forall|i: int|
            0 <= i < responses.len() ==> reads_as(
                #[trigger] lines_of(frames(responses))[i],
                responses[i],
            ),
{
    assert forall|i: int| 0 <= i < responses.len() implies whole_line(
        #[trigger] frame(responses[i]),
    ) by {
        assert(carries(frame(responses[i]), responses[i]));
    }
    responses_read_back(responses);
    let found = lines_of(frames(responses));
    assert forall|i: int| 0 <= i < responses.len() implies reads_as(
        #[trigger] found[i],
        responses[i],
    ) by {
        assert(carries(frame(responses[i]), responses[i]));
        assert(frame(responses[i]).drop_last() =~= json_text(responses[i]));
        assert(found[i] == json_text(responses[i]));
    }
}

/// One more response is one more line.
pub proof fn responses_follow_each_other(responses: Seq<JsonView>, next: JsonView)
    ensures
        frames(responses.push(next)) == frames(responses) + frame(next),
    decreases responses.len(),
{
    let all = responses.push(next);
    if responses.len() == 0 {
        reveal_with_fuel(frames, 2);
        assert(all.drop_first() =~= Seq::empty());
        assert(frames(all) =~= frames(responses) + frame(next));
    } else {
        let rest = responses.drop_first();
        assert(all.drop_first() =~= rest.push(next));
        responses_follow_each_other(rest, next);
        assert(frame(responses[0]) + (frames(rest) + frame(next)) =~= frames(responses) + frame(
            next,
        ));
    }
}

/// The complaint about a text that is no JSON is plain, so it always reads back.
pub proof fn complaints_are_plain(message: Seq<char>)
    ensures
        plain(invalid_json_view(message), MAX_DEPTH as nat),
{
    let members = invalid_json_view(message)->Object_0;
    assert forall|name: Seq<char>| #[trigger] members.contains_key(name) implies plain(
        members[name],
        (MAX_DEPTH - 1) as nat,
    ) by {
        reveal_with_fuel(plain, 2);
    }
}

/// A line opens an HTTP request exactly if one of the nine methods comes first
/// in it, with a blank behind.
pub proof fn http_lines_begin_with_a_method(line: Seq<char>, rest: Seq<char>)
    ensures
        http_line("GET "@ + rest),
        http_line("POST "@ + rest),
        http_line("PUT "@ + rest),
        http_line("DELETE "@ + rest),
        http_line("PATCH "@ + rest),
        http_line("HEAD "@ + rest),
        http_line("OPTIONS "@ + rest),
        http_line("CONNECT "@ + rest),
        http_line("TRACE "@ + rest),
        http_line(line) ==> exists|method: Seq<char>, path: Seq<char>|
            line == #[trigger] (method + path) && (method == "GET "@ || method == "POST "@ || method
                == "PUT "@ || method == "DELETE "@ || method == "PATCH "@ || method == "HEAD "@
                || method == "OPTIONS "@ || method == "CONNECT "@ || method == "TRACE "@),
{
    assert forall|method: Seq<char>| #[trigger] method.is_prefix_of(method + rest) by {
        assert((method + rest).subrange(0, method.len() as int) =~= method);
    }
    assert forall|method: Seq<char>| #[trigger] method.is_prefix_of(line) implies line == method
        + line.skip(method.len() as int) by {
        assert(line.subrange(0, method.len() as int) == method);
        assert(line =~= method + line.skip(method.len() as int));
    }
}

/// A line that is JSON is a command, whatever it holds: the document is the one
/// that was read, and its action is what its member of that name says, or
/// nothing.
pub proof fn good_lines_are_commands(
    before: Seq<char>,
    text: Seq<char>,
    after: Seq<char>,
    document: JsonView,
)
    requires
        all_white(before),
        all_white(after),
        text.len() > 0,
        trimmed(text) == text,
        !http_line(text),
        json_parse(text) == Ok::<JsonView, Seq<char>>(document),
    ensures
        request_of(before + text + after) matches RequestView::Command(action, command) && command
            == document && match document {
            JsonView::Object(members) => if members.contains_key("action"@)
                && members["action"@] is Text {
                members["action"@] == JsonView::Text(action)
            } else {
                action.len() == 0
            },
            _ => action.len() == 0,
        },
{
    crate::text::trim_ignores_padding(before, text, after);
}

/// What else a line can be: nothing, where it is white space; a request for
/// another server; or a text that is no JSON, with the complaint about it. White
/// space around the line makes no difference.
pub proof fn other_lines_are_no_commands(before: Seq<char>, text: Seq<char>, after: Seq<char>)
    requires
        all_white(before),
        all_white(after),
    ensures
        request_of(before + text + after) == request_of(text),
        all_white(text) <==> request_of(text) is Blank,
        request_of(text) is Http <==> http_line(trimmed(text)),
        !all_white(text) && !http_line(trimmed(text)) ==> match json_parse(trimmed(text)) {
            Ok(document) => request_of(text) is Command,
            Err(message) => request_of(text) == RequestView::Invalid(message),
        },
{
    crate::text::trim_ignores_padding(before, text, after);
    every_text_has_a_core(text);
    reveal_strlit("GET ");
    reveal_strlit("POST ");
    reveal_strlit("PUT ");
    reveal_strlit("DELETE ");
    reveal_strlit("PATCH ");
    reveal_strlit("HEAD ");
    reveal_strlit("OPTIONS ");
    reveal_strlit("CONNECT ");
    reveal_strlit("TRACE ");
}

/// A close is completed by any response that is a success and whose data says
/// closed, whatever else the response and its data hold.
pub proof fn direct_closes_are_complete(
    action: Seq<char>,
    response: Map<Seq<char>, JsonView>,
    data: Map<Seq<char>, JsonView>,
)
    requires
        action == "close"@ || action == "confirm"@ || action == "__agent_browser_daemon_shutdown"@,
        response.contains_key("success"@) && response["success"@] == JsonView::Bool(true),
        response.contains_key("data"@) && response["data"@] == JsonView::Object(data),
        data.contains_key("closed"@) && data["closed"@] == JsonView::Bool(true),
    ensures
        close_completed(action, JsonView::Object(response)),
{
}

/// So it is by a success whose data holds the result of what was confirmed,
/// where that is a success whose own data says closed, whatever else they hold.
pub proof fn confirmed_closes_are_complete(
    action: Seq<char>,
    response: Map<Seq<char>, JsonView>,
    data: Map<Seq<char>, JsonView>,
    result: Map<Seq<char>, JsonView>,
    inner: Map<Seq<char>, JsonView>,
)
    requires
        action == "close"@ || action == "confirm"@ || action == "__agent_browser_daemon_shutdown"@,
        response.contains_key("success"@) && response["success"@] == JsonView::Bool(true),
        response.contains_key("data"@) && response["data"@] == JsonView::Object(data),
        data.contains_key("result"@) && data["result"@] == JsonView::Object(result),
        result.contains_key("success"@) && result["success"@] == JsonView::Bool(true),
        result.contains_key("data"@) && result["data"@] == JsonView::Object(inner),
        inner.contains_key("closed"@) && inner["closed"@] == JsonView::Bool(true),
    ensures
        close_completed(action, JsonView::Object(response)),
{
}

/// Whether an object has that member, with that value.
pub open spec fn holds(document: JsonView, name: Seq<char>, value: JsonView) -> bool {
    document matches JsonView::Object(members) && members.contains_key(name) && members[name]
        == value
}

/// Nothing else completes a close.
pub proof fn other_responses_complete_no_close(action: Seq<char>, response: JsonView)
    requires
        close_completed(action, response),
    ensures
        action == "close"@ || action == "confirm"@ || action == "__agent_browser_daemon_shutdown"@,
        holds(response, "success"@, JsonView::Bool(true)),
        exists|data: JsonView|
            #![trigger holds(response, "data"@, data)]
            holds(response, "data"@, data) && (holds(data, "closed"@, JsonView::Bool(true)) || (
            exists|result: JsonView, inner: JsonView|
                #![trigger holds(data, "result"@, result), holds(result, "data"@, inner)]
                holds(data, "result"@, result) && holds(result, "success"@, JsonView::Bool(true))
                    && holds(result, "data"@, inner) && holds(
                    inner,
                    "closed"@,
                    JsonView::Bool(true),
                ))),
{
    let data = member(response, "data"@)->0;
    assert(holds(response, "data"@, data));
    if !holds(data, "closed"@, JsonView::Bool(true)) {
        let result = member(data, "result"@)->0;
        let inner = member(result, "data"@)->0;
        assert(holds(data, "result"@, result));
        assert(holds(result, "data"@, inner));
    }
}

/// A complaint about a text that is no JSON is a failure with the message in its
/// error, and holds nothing else.
pub proof fn complaints_hold_the_message(message: Seq<char>)
    ensures
        holds(invalid_json_view(message), "success"@, JsonView::Bool(false)),
        holds(invalid_json_view(message), "error"@, JsonView::Text("Invalid JSON: "@ + message)),
        invalid_json_view(message) matches JsonView::Object(members) && forall|name: Seq<char>|
            #[trigger] members.contains_key(name) ==> name == "success"@ || name == "error"@,
{
    reveal_strlit("success");
    reveal_strlit("error");
    assert("success"@.len() != "error"@.len());
}

/// The line that carries a response is its text and a line feed.
pub proof fn frames_are_the_text_and_a_line_feed(response: JsonView)
    ensures
        frame(response).len() == json_text(response).len() + 1,
        frame(response).last() == '\n',
        frame(response).drop_last() == json_text(response),
{
    assert(frame(response).drop_last() =~= json_text(response));
}

} // verus!
