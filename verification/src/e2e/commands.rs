//! The commands that scenarios send, and the scenarios that are nothing but a
//! series of them.

use crate::e2e::data_url::{data_url, fits_in_url, html_data_url};
use crate::e2e::literal::{
    document, fields_view, items_view, literals_write_themselves_down, names_field, push_field,
    records_write_their_fields_down, Literal, LiteralView,
};
use crate::e2e::replies::text_views;
use crate::e2e::scenario::{
    expect_views, step_views, Expect, ExpectView, Step, StepView,
};
use crate::json::{member, text_of, Json, JsonView};
use crate::protocol::holds;
use vstd::prelude::*;

verus! {

/// A command with nothing but its action.
pub open spec fn bare(action: Seq<char>) -> LiteralView {
    LiteralView::Record(seq![("action"@, LiteralView::Word(action))])
}

/// A command with nothing but its action.
pub fn bare_command(action: &str) -> (r: Literal)
    ensures
        r@ == bare(action@),
{
    let mut fields: Vec<(String, Literal)> = Vec::new();
    push_field(&mut fields, "action", Literal::word(action));
    assert(fields_view(fields@) =~= bare(action@)->Record_0);
    Literal::record(fields)
}

/// A command with one argument.
pub open spec fn with_one(action: Seq<char>, name: Seq<char>, value: LiteralView) -> LiteralView {
    LiteralView::Record(seq![("action"@, LiteralView::Word(action)), (name, value)])
}

/// A command with one argument.
pub fn command_with(action: &str, name: &str, value: Literal) -> (r: Literal)
    ensures
        r@ == with_one(action@, name@, value@),
{
    let ghost given = value@;
    let mut fields: Vec<(String, Literal)> = Vec::new();
    push_field(&mut fields, "action", Literal::word(action));
    push_field(&mut fields, name, value);
    assert(fields_view(fields@) =~= with_one(action@, name@, given)->Record_0);
    Literal::record(fields)
}

/// A command with an identifier and arguments.
pub open spec fn identified(
    id: Seq<char>,
    action: Seq<char>,
    arguments: Seq<(Seq<char>, LiteralView)>,
) -> LiteralView {
    LiteralView::Record(
        seq![("id"@, LiteralView::Word(id)), ("action"@, LiteralView::Word(action))] + arguments,
    )
}

/// A command with an identifier and arguments.
pub fn identified_command(id: &str, action: &str, arguments: Vec<(String, Literal)>) -> (r: Literal)
    ensures
        r@ == identified(id@, action@, fields_view(arguments@)),
{
    let ghost given = fields_view(arguments@);
    let mut fields: Vec<(String, Literal)> = Vec::new();
    push_field(&mut fields, "id", Literal::word(id));
    push_field(&mut fields, "action", Literal::word(action));
    let ghost start = fields_view(fields@);
    let mut arguments = arguments;
    let ghost moved = arguments@;
    fields.append(&mut arguments);
    assert(fields_view(fields@) =~= start + fields_view(moved));
    assert(fields_view(fields@) =~= identified(id@, action@, given)->Record_0);
    Literal::record(fields)
}

/// No arguments at all.
pub open spec fn no_arguments() -> Seq<(Seq<char>, LiteralView)> {
    Seq::empty()
}

/// The command that selects values.
pub open spec fn select(id: Seq<char>, selector: Seq<char>, values: Seq<Seq<char>>) -> LiteralView {
    identified(
        id,
        "select"@,
        seq![
            ("selector"@, LiteralView::Word(selector)),
            ("values"@, LiteralView::List(values.map_values(|s: Seq<char>| LiteralView::Word(s)))),
        ],
    )
}

/// The command that selects values.
pub fn select_values(id: &str, selector: &str, values: &Vec<String>) -> (r: Literal)
    ensures
        r@ == select(id@, selector@, text_views(values@)),
{
    let ghost words = text_views(values@).map_values(|s: Seq<char>| LiteralView::Word(s));
    let n: usize = values.len();
    let mut items: Vec<Literal> = Vec::new();
    let mut i: usize = 0;
    while i < n
        invariant
            i <= n,
            n == values@.len(),
            words == text_views(values@).map_values(|s: Seq<char>| LiteralView::Word(s)),
            items_view(items@) == words.take(i as int),
        decreases n - i,
    {
        let ghost before = items@;
        items.push(Literal::word(values[i].as_str()));
        assert(items_view(items@) =~= items_view(before).push(words[i as int]));
        assert(words.take(i + 1) =~= words.take(i as int).push(words[i as int]));
        i = i + 1;
    }
    assert(words.take(n as int) =~= words);
    let mut arguments: Vec<(String, Literal)> = Vec::new();
    push_field(&mut arguments, "selector", Literal::word(selector));
    push_field(&mut arguments, "values", Literal::list(items));
    assert(fields_view(arguments@) =~= seq![
        ("selector"@, LiteralView::Word(selector@)),
        ("values"@, LiteralView::List(words)),
    ]);
    identified_command(id, "select", arguments)
}

/// The command that asks for the page's address.
pub fn current_url(id: &str) -> (r: Literal)
    ensures
        r@ == identified(id@, "url"@, no_arguments()),
{
    let arguments: Vec<(String, Literal)> = Vec::new();
    assert(fields_view(arguments@) =~= no_arguments());
    identified_command(id, "url", arguments)
}

/// The demand that a command works.
pub open spec fn success_only() -> Seq<ExpectView> {
    seq![ExpectView::Success]
}

fn expect_success() -> (r: Vec<Expect>)
    ensures
        expect_views(r@) == success_only(),
{
    let mut expects: Vec<Expect> = Vec::new();
    expects.push(Expect::Success);
    assert(expect_views(expects@) =~= success_only());
    expects
}

/// A command that has to work.
pub open spec fn sent(command: LiteralView) -> StepView {
    StepView::Send(command, success_only())
}

/// A command that has to work.
pub fn send(command: Literal) -> (r: Step)
    ensures
        r@ == sent(command@),
{
    Step::Send(command, expect_success())
}

/// Where the result of a script is found in a reply.
pub open spec fn datum(name: Seq<char>) -> Seq<Seq<char>> {
    seq!["data"@, name]
}

/// The demand on one datum of a reply.
pub fn expect_datum(name: &str, value: Literal) -> (r: Expect)
    ensures
        r@ == ExpectView::At(datum(name@), value@),
{
    let mut path: Vec<String> = Vec::new();
    path.push("data".to_owned());
    path.push(name.to_owned());
    assert(text_views(path@) =~= datum(name@));
    Expect::At(path, value)
}

/// A command that has to work and bring a datum.
pub open spec fn sent_for(command: LiteralView, name: Seq<char>, value: LiteralView) -> StepView {
    StepView::Send(command, seq![ExpectView::Success, ExpectView::At(datum(name), value)])
}

/// A command that has to work and bring a datum.
pub fn send_for(command: Literal, name: &str, value: Literal) -> (r: Step)
    ensures
        r@ == sent_for(command@, name@, value@),
{
    let ghost wanted = value@;
    let mut expects: Vec<Expect> = Vec::new();
    expects.push(Expect::Success);
    expects.push(expect_datum(name, value));
    assert(expect_views(expects@) =~= seq![
        ExpectView::Success,
        ExpectView::At(datum(name@), wanted),
    ]);
    Step::Send(command, expects)
}

/// A script that has to give a result.
pub open spec fn evaluated(id: Seq<char>, script: Seq<char>, result: LiteralView) -> StepView {
    sent_for(
        identified(id, "evaluate"@, seq![("script"@, LiteralView::Word(script))]),
        "result"@,
        result,
    )
}

/// A script that has to give a result.
pub fn evaluate(id: &str, script: &str, result: Literal) -> (r: Step)
    ensures
        r@ == evaluated(id@, script@, result@),
{
    let mut arguments: Vec<(String, Literal)> = Vec::new();
    push_field(&mut arguments, "script", Literal::word(script));
    assert(fields_view(arguments@) =~= seq![("script"@, LiteralView::Word(script@))]);
    send_for(identified_command(id, "evaluate", arguments), "result", result)
}

/// The command that launches a browser without a window.
pub open spec fn launched() -> LiteralView {
    with_one("launch"@, "headless"@, LiteralView::Truth(true))
}

/// The command that launches a browser without a window.
pub fn launch() -> (r: Literal)
    ensures
        r@ == launched(),
{
    command_with("launch", "headless", Literal::Truth(true))
}

/// The arguments that launch a browser without a window and without the
/// sandbox.
pub open spec fn bare_browser() -> Seq<(Seq<char>, LiteralView)> {
    seq![
        ("headless"@, LiteralView::Truth(true)),
        (
            "args"@,
            LiteralView::List(
                seq![
                    LiteralView::Word("--no-sandbox"@),
                    LiteralView::Word("--disable-dev-shm-usage"@),
                ],
            ),
        ),
    ]
}

fn bare_browser_arguments() -> (r: Vec<(String, Literal)>)
    ensures
        fields_view(r@) == bare_browser(),
{
    let mut items: Vec<Literal> = Vec::new();
    items.push(Literal::word("--no-sandbox"));
    items.push(Literal::word("--disable-dev-shm-usage"));
    assert(items_view(items@) =~= seq![
        LiteralView::Word("--no-sandbox"@),
        LiteralView::Word("--disable-dev-shm-usage"@),
    ]);
    let mut arguments: Vec<(String, Literal)> = Vec::new();
    push_field(&mut arguments, "headless", Literal::Truth(true));
    push_field(&mut arguments, "args", Literal::list(items));
    assert(fields_view(arguments@) =~= bare_browser());
    arguments
}

/// The arguments that set a cookie which outlives the session.
pub open spec fn lasting_cookie(name: Seq<char>, value: Seq<char>) -> Seq<(Seq<char>, LiteralView)> {
    seq![
        ("name"@, LiteralView::Word(name)),
        ("value"@, LiteralView::Word(value)),
        ("domain"@, LiteralView::Word(".example.com"@)),
        ("path"@, LiteralView::Word("/"@)),
        ("expires"@, LiteralView::Whole(2000000000)),
    ]
}

fn lasting_cookie_arguments(name: &str, value: &str) -> (r: Vec<(String, Literal)>)
    ensures
        fields_view(r@) == lasting_cookie(name@, value@),
{
    let mut arguments: Vec<(String, Literal)> = Vec::new();
    push_field(&mut arguments, "name", Literal::word(name));
    push_field(&mut arguments, "value", Literal::word(value));
    push_field(&mut arguments, "domain", Literal::word(".example.com"));
    push_field(&mut arguments, "path", Literal::word("/"));
    push_field(&mut arguments, "expires", Literal::Whole(2000000000));
    assert(fields_view(arguments@) =~= lasting_cookie(name@, value@));
    arguments
}

fn one_argument(name: &str, value: Literal) -> (r: Vec<(String, Literal)>)
    ensures
        fields_view(r@) == seq![(name@, value@)],
{
    let ghost given = value@;
    let mut arguments: Vec<(String, Literal)> = Vec::new();
    push_field(&mut arguments, name, value);
    assert(fields_view(arguments@) =~= seq![(name@, given)]);
    arguments
}

fn two_arguments(a: &str, x: Literal, b: &str, y: Literal) -> (r: Vec<(String, Literal)>)
    ensures
        fields_view(r@) == seq![(a@, x@), (b@, y@)],
{
    let ghost given = seq![(a@, x@), (b@, y@)];
    let mut arguments: Vec<(String, Literal)> = Vec::new();
    push_field(&mut arguments, a, x);
    push_field(&mut arguments, b, y);
    assert(fields_view(arguments@) =~= given);
    arguments
}

fn nothing_more() -> (r: Vec<(String, Literal)>)
    ensures
        fields_view(r@) == no_arguments(),
{
    let arguments: Vec<(String, Literal)> = Vec::new();
    assert(fields_view(arguments@) =~= no_arguments());
    arguments
}

/// A scenario that saves a state with one cookie to a file.
pub open spec fn storage_state(path: Seq<char>, name: Seq<char>, value: Seq<char>) -> Seq<StepView> {
    seq![
        sent(identified("1"@, "launch"@, bare_browser())),
        sent(
            identified(
                "2"@,
                "navigate"@,
                seq![("url"@, LiteralView::Word("https://example.com"@))],
            ),
        ),
        sent(identified("3"@, "cookies_set"@, lasting_cookie(name, value))),
        sent(identified("4"@, "state_save"@, seq![("path"@, LiteralView::Word(path))])),
        sent(identified("5"@, "close"@, no_arguments())),
    ]
}

/// A scenario that saves a state with one cookie to a file.
pub fn create_storage_state_with_cookie(path: &str, cookie_name: &str, cookie_value: &str) -> (r:
    Vec<Step>)
    ensures
        step_views(r@) == storage_state(path@, cookie_name@, cookie_value@),
{
    let mut steps: Vec<Step> = Vec::new();
    steps.push(send(identified_command("1", "launch", bare_browser_arguments())));
    steps.push(
        send(
            identified_command(
                "2",
                "navigate",
                one_argument("url", Literal::word("https://example.com")),
            ),
        ),
    );
    steps.push(
        send(
            identified_command(
                "3",
                "cookies_set",
                lasting_cookie_arguments(cookie_name, cookie_value),
            ),
        ),
    );
    steps.push(
        send(identified_command("4", "state_save", one_argument("path", Literal::word(path)))),
    );
    steps.push(send(identified_command("5", "close", nothing_more())));
    assert(step_views(steps@) =~= storage_state(path@, cookie_name@, cookie_value@));
    steps
}

/// A scenario that leaves a state with one cookie under a key: closing saves it.
pub open spec fn restore_state(key: Seq<char>, name: Seq<char>, value: Seq<char>) -> Seq<StepView> {
    seq![
        sent(
            identified(
                "1"@,
                "navigate"@,
                seq![
                    ("url"@, LiteralView::Word("https://example.com"@)),
                    ("restoreKey"@, LiteralView::Word(key)),
                ],
            ),
        ),
        sent(identified("2"@, "cookies_set"@, lasting_cookie(name, value))),
        sent_for(
            identified("3"@, "close"@, no_arguments()),
            "saveStatus"@,
            LiteralView::Word("saved"@),
        ),
    ]
}

/// A scenario that leaves a state with one cookie under a key: closing saves it.
pub fn create_restore_state_with_cookie(
    restore_key: &str,
    cookie_name: &str,
    cookie_value: &str,
) -> (r: Vec<Step>)
    ensures
        step_views(r@) == restore_state(restore_key@, cookie_name@, cookie_value@),
{
    let mut steps: Vec<Step> = Vec::new();
    steps.push(
        send(
            identified_command(
                "1",
                "navigate",
                two_arguments(
                    "url",
                    Literal::word("https://example.com"),
                    "restoreKey",
                    Literal::word(restore_key),
                ),
            ),
        ),
    );
    steps.push(
        send(
            identified_command(
                "2",
                "cookies_set",
                lasting_cookie_arguments(cookie_name, cookie_value),
            ),
        ),
    );
    steps.push(
        send_for(
            identified_command("3", "close", nothing_more()),
            "saveStatus",
            Literal::word("saved"),
        ),
    );
    assert(step_views(steps@) =~= restore_state(restore_key@, cookie_name@, cookie_value@));
    steps
}

/// A scenario that launches a browser for other sessions, and asks where they
/// can attach to it.
pub open spec fn binding_host() -> Seq<StepView> {
    seq![
        sent(identified("host-1"@, "launch"@, bare_browser())),
        sent(identified("host-2"@, "cdp_url"@, no_arguments())),
    ]
}

/// A scenario that launches a browser for other sessions, and asks where they
/// can attach to it.
pub fn launch_binding_host() -> (r: Vec<Step>)
    ensures
        step_views(r@) == binding_host(),
{
    let mut steps: Vec<Step> = Vec::new();
    steps.push(send(identified_command("host-1", "launch", bare_browser_arguments())));
    steps.push(send(identified_command("host-2", "cdp_url", nothing_more())));
    assert(step_views(steps@) =~= binding_host());
    steps
}

/// Where other sessions can attach to a browser, by the reply to that question.
pub open spec fn attach_url(reply: crate::json::JsonView) -> Option<Seq<char>> {
    match member(reply, "data"@) {
        Some(data) => text_of(member(data, "cdpUrl"@)),
        None => None,
    }
}

/// Where other sessions can attach to a browser, by the reply to that question.
pub fn cdp_url(reply: &Json) -> (r: Option<&str>)
    ensures
        match r {
            Some(url) => attach_url(reply@) == Some(url@),
            None => attach_url(reply@) is None,
        },
{
    match reply.get("data") {
        Some(data) => match data.get("cdpUrl") {
            Some(url) => url.as_text(),
            None => None,
        },
        None => None,
    }
}

/// A scenario that attaches a session to a browser, pins its tab and opens a
/// page there.
pub open spec fn pinned_session(session: Seq<char>, ws_url: Seq<char>, url: Seq<char>) -> Seq<
    StepView,
> {
    seq![
        sent(
            identified(
                session + "-launch"@,
                "launch"@,
                seq![
                    ("cdpUrl"@, LiteralView::Word(ws_url)),
                    ("pinTab"@, LiteralView::Truth(true)),
                ],
            ),
        ),
        sent(
            identified(session + "-nav"@, "navigate"@, seq![("url"@, LiteralView::Word(url))]),
        ),
    ]
}

/// A scenario that attaches a session to a browser, pins its tab and opens a
/// page there.
pub fn attach_pinned_session(session: &str, ws_url: &str, url: &str) -> (r: Vec<Step>)
    ensures
        step_views(r@) == pinned_session(session@, ws_url@, url@),
{
    let mut steps: Vec<Step> = Vec::new();
    let launch_id = session.to_owned().concat("-launch");
    let nav_id = session.to_owned().concat("-nav");
    steps.push(
        send(
            identified_command(
                launch_id.as_str(),
                "launch",
                two_arguments("cdpUrl", Literal::word(ws_url), "pinTab", Literal::Truth(true)),
            ),
        ),
    );
    steps.push(
        send(
            identified_command(
                nav_id.as_str(),
                "navigate",
                one_argument("url", Literal::word(url)),
            ),
        ),
    );
    assert(step_views(steps@) =~= pinned_session(session@, ws_url@, url@));
    steps
}

/// A scenario that opens a page in a new browser and takes a snapshot of it.
pub open spec fn page_snapshot(url: Seq<char>) -> Seq<StepView> {
    seq![
        sent(launched()),
        sent(with_one("navigate"@, "url"@, LiteralView::Word(url))),
        sent(bare("snapshot"@)),
    ]
}

/// A scenario that opens a page in a new browser, out of an address that the page
/// is written into, and takes a snapshot of it.
pub fn reference_relationship_page(html: &str) -> (r: Vec<Step>)
    requires
        fits_in_url(html@),
    ensures
        step_views(r@) == page_snapshot(data_url(html@)),
{
    let url = html_data_url(html);
    let mut steps: Vec<Step> = Vec::new();
    steps.push(send(launch()));
    steps.push(send(command_with("navigate", "url", Literal::word(url.as_str()))));
    steps.push(send(bare_command("snapshot")));
    assert(step_views(steps@) =~= page_snapshot(url@));
    steps
}

/// A command has its action under that name, and its arguments under theirs; it
/// has nothing else but its identifier.
pub proof fn commands_say_what_to_do(
    id: Seq<char>,
    action: Seq<char>,
    arguments: Seq<(Seq<char>, LiteralView)>,
    k: int,
    name: Seq<char>,
)
    requires
        forall|i: int|
            0 <= i < arguments.len() ==> (#[trigger] arguments[i]).0 != "id"@ && arguments[i].0
                != "action"@,
        forall|i: int, j: int|
            0 <= i < j < arguments.len() ==> (#[trigger] arguments[i]).0 != (
            #[trigger] arguments[j]).0,
    ensures
        ({
            let command = document(identified(id, action, arguments));
            &&& holds(command, "id"@, JsonView::Text(id))
            &&& holds(command, "action"@, JsonView::Text(action))
            &&& 0 <= k < arguments.len() ==> holds(
                command,
                arguments[k].0,
                document(arguments[k].1),
            )
            &&& command->Object_0.contains_key(name) ==> name == "id"@ || name == "action"@
                || names_field(arguments, name)
        }),
{
    let front = seq![("id"@, LiteralView::Word(id)), ("action"@, LiteralView::Word(action))];
    let fields = front + arguments;
    assert(identified(id, action, arguments) == LiteralView::Record(fields));
    reveal_strlit("id");
    reveal_strlit("action");
    assert("id"@.len() == 2 && "action"@.len() == 6);
    assert forall|i: int| 2 <= i < fields.len() implies (#[trigger] fields[i]) == arguments[i
        - 2] by {}
    assert(fields[0] == front[0] && fields[1] == front[1]);
    records_write_their_fields_down(fields, "id"@, 0);
    records_write_their_fields_down(fields, "action"@, 1);
    assert(names_field(fields, "id"@) && names_field(fields, "action"@));
    literals_write_themselves_down(true, 0, id, Seq::empty(), 0);
    literals_write_themselves_down(true, 0, action, Seq::empty(), 0);
    if 0 <= k < arguments.len() {
        assert(fields[k + 2] == arguments[k]);
        assert(names_field(fields, arguments[k].0));
        assert forall|i: int| k + 2 < i < fields.len() implies (#[trigger] fields[i]).0
            != arguments[k].0 by {
            assert(fields[i] == arguments[i - 2]);
            assert(arguments[k].0 != arguments[i - 2].0);
        }
        records_write_their_fields_down(fields, arguments[k].0, k + 2);
    }
    records_write_their_fields_down(fields, name, 0);
    if names_field(fields, name) && name != "id"@ && name != "action"@ {
        let i = choose|i: int| 0 <= i < fields.len() && (#[trigger] fields[i]).0 == name;
        assert(i >= 2);
        assert(arguments[i - 2].0 == name);
    }
}

/// A command without an identifier has its action, and its argument if there is
/// one, and nothing else.
pub proof fn plain_commands_say_what_to_do(
    action: Seq<char>,
    name: Seq<char>,
    value: LiteralView,
    other: Seq<char>,
)
    requires
        name != "action"@,
    ensures
        holds(document(bare(action)), "action"@, JsonView::Text(action)),
        document(bare(action))->Object_0.contains_key(other) ==> other == "action"@,
        holds(document(with_one(action, name, value)), "action"@, JsonView::Text(action)),
        holds(document(with_one(action, name, value)), name, document(value)),
        document(with_one(action, name, value))->Object_0.contains_key(other) ==> other == "action"@
            || other == name,
{
    let one = seq![("action"@, LiteralView::Word(action))];
    let two = seq![("action"@, LiteralView::Word(action)), (name, value)];
    literals_write_themselves_down(true, 0, action, Seq::empty(), 0);
    assert(one[0].0 == "action"@ && two[0].0 == "action"@ && two[1].0 == name);
    assert(names_field(one, "action"@) && names_field(two, "action"@) && names_field(two, name));
    records_write_their_fields_down(one, "action"@, 0);
    records_write_their_fields_down(two, "action"@, 0);
    records_write_their_fields_down(two, name, 1);
    records_write_their_fields_down(one, other, 0);
    records_write_their_fields_down(two, other, 0);
}

/// The command that launches a browser has no window to show.
pub proof fn launches_are_headless()
    ensures
        holds(document(launched()), "action"@, JsonView::Text("launch"@)),
        holds(document(launched()), "headless"@, JsonView::Bool(true)),
{
    reveal_strlit("action");
    reveal_strlit("headless");
    assert("action"@.len() == 6 && "headless"@.len() == 8);
    plain_commands_say_what_to_do("launch"@, "headless"@, LiteralView::Truth(true), ""@);
    literals_write_themselves_down(true, 0, ""@, Seq::empty(), 0);
}

/// Selecting names the control and all values, in their order.
pub proof fn selections_list_the_values(
    id: Seq<char>,
    selector: Seq<char>,
    values: Seq<Seq<char>>,
    i: int,
)
    ensures
        ({
            let command = document(select(id, selector, values));
            &&& holds(command, "id"@, JsonView::Text(id))
            &&& holds(command, "action"@, JsonView::Text("select"@))
            &&& holds(command, "selector"@, JsonView::Text(selector))
            &&& command->Object_0.contains_key("values"@)
            &&& command->Object_0["values"@] matches JsonView::Array(found) && found.len()
                == values.len() && (0 <= i < values.len() ==> found[i] == JsonView::Text(
                values[i],
            ))
        }),
{
    let words = values.map_values(|s: Seq<char>| LiteralView::Word(s));
    let arguments = seq![
        ("selector"@, LiteralView::Word(selector)),
        ("values"@, LiteralView::List(words)),
    ];
    lemma_names();
    commands_say_what_to_do(id, "select"@, arguments, 0, ""@);
    commands_say_what_to_do(id, "select"@, arguments, 1, ""@);
    literals_write_themselves_down(true, 0, selector, words, i);
    if 0 <= i < values.len() {
        literals_write_themselves_down(true, 0, values[i], Seq::empty(), 0);
    }
}

proof fn lemma_names()
    ensures
        "id"@.len() == 2,
        "url"@.len() == 3,
        "args"@.len() == 4,
        "path"@.len() == 4,
        "args"@[0] == 'a',
        "path"@[0] == 'p',
        "name"@.len() == 4,
        "name"@[0] == 'n',
        "value"@.len() == 5,
        "action"@.len() == 6,
        "domain"@.len() == 6,
        "values"@.len() == 6,
        "cdpUrl"@.len() == 6,
        "pinTab"@.len() == 6,
        "script"@.len() == 6,
        "action"@[0] == 'a',
        "domain"@[0] == 'd',
        "values"@[0] == 'v',
        "cdpUrl"@[0] == 'c',
        "pinTab"@[0] == 'p',
        "script"@[0] == 's',
        "expires"@.len() == 7,
        "selector"@.len() == 8,
        "headless"@.len() == 8,
        "selector"@[0] == 's',
        "headless"@[0] == 'h',
        "restoreKey"@.len() == 10,
{
    reveal_strlit("id");
    reveal_strlit("url");
    reveal_strlit("args");
    reveal_strlit("path");
    reveal_strlit("name");
    reveal_strlit("value");
    reveal_strlit("action");
    reveal_strlit("domain");
    reveal_strlit("values");
    reveal_strlit("cdpUrl");
    reveal_strlit("pinTab");
    reveal_strlit("script");
    reveal_strlit("expires");
    reveal_strlit("selector");
    reveal_strlit("headless");
    reveal_strlit("restoreKey");
}

/// Whether a step sends a command with that member, and demands at least that it
/// works.
pub open spec fn sends(step: StepView, name: Seq<char>, value: JsonView) -> bool {
    step matches StepView::Send(command, expects) && holds(document(command), name, value)
        && expects.len() > 0 && expects[0] == ExpectView::Success
}

/// The list of arguments for a browser that runs without its sandbox.
pub open spec fn no_sandbox() -> JsonView {
    JsonView::Array(
        seq![JsonView::Text("--no-sandbox"@), JsonView::Text("--disable-dev-shm-usage"@)],
    )
}

proof fn lemma_no_sandbox()
    ensures
        bare_browser().len() == 2,
        bare_browser()[1].0 == "args"@,
        document(bare_browser()[1].1) == no_sandbox(),
{
    let items = seq![
        LiteralView::Word("--no-sandbox"@),
        LiteralView::Word("--disable-dev-shm-usage"@),
    ];
    literals_write_themselves_down(true, 0, "--no-sandbox"@, items, 0);
    literals_write_themselves_down(true, 0, "--disable-dev-shm-usage"@, items, 1);
    let found = document(LiteralView::List(items))->Array_0;
    assert(found =~= no_sandbox()->Array_0);
}

/// To save a state with a cookie, a scenario launches a browser, opens a page, sets
/// the cookie with that name and value there, saves to that file and closes; every
/// one of the five commands has to work.
pub proof fn states_are_saved_in_five_commands(path: Seq<char>, name: Seq<char>, value: Seq<char>)
    ensures
        ({
            let steps = storage_state(path, name, value);
            &&& steps.len() == 5
            &&& forall|i: int|
                #![trigger steps[i]]
                0 <= i < 5 ==> steps[i]->Send_1 == seq![ExpectView::Success]
            &&& sends(steps[0], "id"@, JsonView::Text("1"@))
            &&& sends(steps[1], "id"@, JsonView::Text("2"@))
            &&& sends(steps[2], "id"@, JsonView::Text("3"@))
            &&& sends(steps[3], "id"@, JsonView::Text("4"@))
            &&& sends(steps[4], "id"@, JsonView::Text("5"@))
            &&& sends(steps[0], "args"@, no_sandbox())
            &&& sends(steps[0], "action"@, JsonView::Text("launch"@))
            &&& sends(steps[0], "headless"@, JsonView::Bool(true))
            &&& sends(steps[1], "action"@, JsonView::Text("navigate"@))
            &&& sends(steps[1], "url"@, JsonView::Text("https://example.com"@))
            &&& sends(steps[2], "action"@, JsonView::Text("cookies_set"@))
            &&& sends(steps[2], "name"@, JsonView::Text(name))
            &&& sends(steps[2], "value"@, JsonView::Text(value))
            &&& sends(steps[2], "domain"@, JsonView::Text(".example.com"@))
            &&& sends(steps[2], "path"@, JsonView::Text("/"@))
            &&& sends(steps[2], "expires"@, document(LiteralView::Whole(2000000000)))
            &&& sends(steps[3], "action"@, JsonView::Text("state_save"@))
            &&& sends(steps[3], "path"@, JsonView::Text(path))
            &&& sends(steps[4], "action"@, JsonView::Text("close"@))
        }),
{
    lemma_names();
    lemma_words_are_texts();
    let page = seq![("url"@, LiteralView::Word("https://example.com"@))];
    let file = seq![("path"@, LiteralView::Word(path))];
    let cookie = lasting_cookie(name, value);
    lemma_no_sandbox();
    commands_say_what_to_do("1"@, "launch"@, bare_browser(), 0, ""@);
    commands_say_what_to_do("1"@, "launch"@, bare_browser(), 1, ""@);
    commands_say_what_to_do("2"@, "navigate"@, page, 0, ""@);
    commands_say_what_to_do("3"@, "cookies_set"@, cookie, 0, ""@);
    commands_say_what_to_do("3"@, "cookies_set"@, cookie, 1, ""@);
    commands_say_what_to_do("3"@, "cookies_set"@, cookie, 2, ""@);
    commands_say_what_to_do("3"@, "cookies_set"@, cookie, 3, ""@);
    commands_say_what_to_do("3"@, "cookies_set"@, cookie, 4, ""@);
    commands_say_what_to_do("4"@, "state_save"@, file, 0, ""@);
    commands_say_what_to_do("5"@, "close"@, no_arguments(), 0, ""@);
}

proof fn lemma_words_are_texts()
    ensures
        forall|s: Seq<char>| #[trigger] document(LiteralView::Word(s)) == JsonView::Text(s),
        forall|b: bool| #[trigger] document(LiteralView::Truth(b)) == JsonView::Bool(b),
{
}

/// To leave a state under a key, a scenario opens a page with that key, sets the
/// cookie there and closes; closing has to say that the state was saved.
pub proof fn states_are_left_under_their_key(key: Seq<char>, name: Seq<char>, value: Seq<char>)
    ensures
        ({
            let steps = restore_state(key, name, value);
            &&& steps.len() == 3
            &&& sends(steps[0], "action"@, JsonView::Text("navigate"@))
            &&& sends(steps[0], "url"@, JsonView::Text("https://example.com"@))
            &&& sends(steps[0], "restoreKey"@, JsonView::Text(key))
            &&& sends(steps[1], "action"@, JsonView::Text("cookies_set"@))
            &&& sends(steps[1], "name"@, JsonView::Text(name))
            &&& sends(steps[1], "value"@, JsonView::Text(value))
            &&& sends(steps[1], "domain"@, JsonView::Text(".example.com"@))
            &&& sends(steps[1], "path"@, JsonView::Text("/"@))
            &&& sends(steps[1], "expires"@, document(LiteralView::Whole(2000000000)))
            &&& sends(steps[2], "action"@, JsonView::Text("close"@))
            &&& sends(steps[0], "id"@, JsonView::Text("1"@))
            &&& sends(steps[1], "id"@, JsonView::Text("2"@))
            &&& sends(steps[2], "id"@, JsonView::Text("3"@))
            &&& steps[2] matches StepView::Send(_, expects) && expects.len() == 2 && expects[1]
                == ExpectView::At(seq!["data"@, "saveStatus"@], LiteralView::Word("saved"@))
        }),
{
    lemma_names();
    lemma_words_are_texts();
    let page = seq![
        ("url"@, LiteralView::Word("https://example.com"@)),
        ("restoreKey"@, LiteralView::Word(key)),
    ];
    let cookie = lasting_cookie(name, value);
    commands_say_what_to_do("1"@, "navigate"@, page, 0, ""@);
    commands_say_what_to_do("1"@, "navigate"@, page, 1, ""@);
    commands_say_what_to_do("2"@, "cookies_set"@, cookie, 0, ""@);
    commands_say_what_to_do("2"@, "cookies_set"@, cookie, 1, ""@);
    commands_say_what_to_do("2"@, "cookies_set"@, cookie, 2, ""@);
    commands_say_what_to_do("2"@, "cookies_set"@, cookie, 3, ""@);
    commands_say_what_to_do("2"@, "cookies_set"@, cookie, 4, ""@);
    commands_say_what_to_do("3"@, "close"@, no_arguments(), 0, ""@);
}

/// A host for other sessions is launched without a window and asked for its
/// address; a session is attached to that address, with its tab pinned, and then
/// opens the page. Identifiers bear the session's name.
pub proof fn sessions_share_a_browser(session: Seq<char>, ws_url: Seq<char>, url: Seq<char>)
    ensures
        ({
            let host = binding_host();
            let steps = pinned_session(session, ws_url, url);
            &&& host.len() == 2 && steps.len() == 2
            &&& sends(host[0], "action"@, JsonView::Text("launch"@))
            &&& sends(host[0], "headless"@, JsonView::Bool(true))
            &&& sends(host[0], "args"@, no_sandbox())
            &&& sends(host[0], "id"@, JsonView::Text("host-1"@))
            &&& sends(host[1], "id"@, JsonView::Text("host-2"@))
            &&& sends(host[1], "action"@, JsonView::Text("cdp_url"@))
            &&& sends(steps[0], "id"@, JsonView::Text(session + "-launch"@))
            &&& sends(steps[0], "action"@, JsonView::Text("launch"@))
            &&& sends(steps[0], "cdpUrl"@, JsonView::Text(ws_url))
            &&& sends(steps[0], "pinTab"@, JsonView::Bool(true))
            &&& sends(steps[1], "id"@, JsonView::Text(session + "-nav"@))
            &&& sends(steps[1], "action"@, JsonView::Text("navigate"@))
            &&& sends(steps[1], "url"@, JsonView::Text(url))
        }),
{
    lemma_names();
    lemma_words_are_texts();
    let pin = seq![("cdpUrl"@, LiteralView::Word(ws_url)), ("pinTab"@, LiteralView::Truth(true))];
    let page = seq![("url"@, LiteralView::Word(url))];
    lemma_no_sandbox();
    commands_say_what_to_do("host-1"@, "launch"@, bare_browser(), 0, ""@);
    commands_say_what_to_do("host-1"@, "launch"@, bare_browser(), 1, ""@);
    commands_say_what_to_do("host-2"@, "cdp_url"@, no_arguments(), 0, ""@);
    commands_say_what_to_do(session + "-launch"@, "launch"@, pin, 0, ""@);
    commands_say_what_to_do(session + "-launch"@, "launch"@, pin, 1, ""@);
    commands_say_what_to_do(session + "-nav"@, "navigate"@, page, 0, ""@);
}

/// The address of a host is the text under that name in the data of the reply.
pub proof fn hosts_say_where_to_attach(reply: JsonView, data: JsonView, url: Seq<char>)
    ensures
        holds(reply, "data"@, data) && holds(data, "cdpUrl"@, JsonView::Text(url)) ==> attach_url(
            reply,
        ) == Some(url),
        attach_url(reply) == Some(url) ==> exists|found: JsonView| #[trigger]
            holds(reply, "data"@, found) && holds(found, "cdpUrl"@, JsonView::Text(url)),
{
    if attach_url(reply) == Some(url) {
        let found = member(reply, "data"@)->0;
        assert(holds(reply, "data"@, found));
    }
}

/// To look at a page, a scenario launches a browser, opens the page and takes a
/// snapshot; to evaluate a script, it sends the script and compares the result.
pub proof fn pages_are_opened_and_looked_at(
    url: Seq<char>,
    id: Seq<char>,
    script: Seq<char>,
    result: LiteralView,
)
    ensures
        ({
            let steps = page_snapshot(url);
            let asked = evaluated(id, script, result);
            &&& steps.len() == 3
            &&& sends(steps[0], "action"@, JsonView::Text("launch"@))
            &&& sends(steps[1], "action"@, JsonView::Text("navigate"@))
            &&& sends(steps[1], "url"@, JsonView::Text(url))
            &&& sends(steps[2], "action"@, JsonView::Text("snapshot"@))
            &&& sends(asked, "action"@, JsonView::Text("evaluate"@))
            &&& sends(asked, "script"@, JsonView::Text(script))
            &&& asked matches StepView::Send(_, expects) && expects.len() == 2 && expects[1]
                == ExpectView::At(seq!["data"@, "result"@], result)
        }),
{
    lemma_names();
    lemma_words_are_texts();
    launches_are_headless();
    plain_commands_say_what_to_do("navigate"@, "url"@, LiteralView::Word(url), ""@);
    plain_commands_say_what_to_do("snapshot"@, "url"@, LiteralView::Word(url), ""@);
    let arguments = seq![("script"@, LiteralView::Word(script))];
    commands_say_what_to_do(id, "evaluate"@, arguments, 0, ""@);
}

} // verus!
