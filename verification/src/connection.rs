//! One client connection, as a machine: each event gives the actions that the
//! program is to perform before the next one.

use crate::json::{json_parse, json_text, plain, reads_as, Json, JsonView, MAX_DEPTH};
use crate::protocol::{
    carries, clients_get_the_responses, close_completed, close_completed_response,
    complaints_are_plain, confirmed_closes_are_complete, direct_closes_are_complete, frame, frames,
    holds, http_line, invalid_json_response, invalid_json_view, lines_of,
    other_lines_are_no_commands, other_responses_complete_no_close, read_request, request_of, response_frame, responses_follow_each_other, succeeded,
    Request, RequestView,
};
use crate::text::{all_white, trimmed};
use vstd::prelude::*;

verus! {

/// How long the daemon waits between its last response and its exit, so that
/// the client can read that response.
pub const CLOSE_PAUSE_MS: u64 = 100;

/// What happens on a connection.
pub enum EventView {
    /// The client has sent all it had to send.
    EndOfInput,
    /// Reading failed.
    ReadFailed,
    /// A line came in.
    Line(Seq<char>),
    /// The command was executed, with this response.
    Executed(JsonView),
    /// The response was written, or not.
    Sent(bool),
}

/// What happens on a connection.
#[derive(Debug, PartialEq)]
pub enum Event {
    /// The client has sent all it had to send.
    EndOfInput,
    /// Reading failed.
    ReadFailed,
    /// A line came in.
    Line(String),
    /// The command was executed, with this response.
    Executed(Json),
    /// The response was written, or not.
    Sent(bool),
}

impl View for Event {
    type V = EventView;

    open spec fn view(&self) -> EventView {
        match self {
            Event::EndOfInput => EventView::EndOfInput,
            Event::ReadFailed => EventView::ReadFailed,
            Event::Line(line) => EventView::Line(line@),
            Event::Executed(response) => EventView::Executed(response@),
            Event::Sent(ok) => EventView::Sent(*ok),
        }
    }
}

/// What the program is to do.
pub enum ActionView {
    ReadLine,
    MarkActivity,
    LockState,
    Execute(JsonView),
    UnlockState,
    Send(Seq<char>),
    SendQuietly(Seq<char>),
    RemoveStreamFile,
    Pause(u64),
    NotifyClose,
    HangUp,
}

/// What the program is to do.
#[derive(Debug, PartialEq)]
pub enum Action {
    /// Read the next line.
    ReadLine,
    /// Restart the idle clock.
    MarkActivity,
    /// Wait for the daemon's state, and hold it.
    LockState,
    /// Execute a command on the daemon's state.
    Execute(Json),
    /// Let go of the daemon's state.
    UnlockState,
    /// Write a line, and report whether that worked.
    Send(String),
    /// Write a line, whether or not that works.
    SendQuietly(String),
    /// Remove the file that names the stream server's port.
    RemoveStreamFile,
    /// Wait that many milliseconds.
    Pause(u64),
    /// Tell the daemon's loop to exit. Leaving the loop, rather than ending the
    /// process here, lets destructors run, so that no browser is orphaned.
    NotifyClose,
    /// Leave the connection.
    HangUp,
}

impl View for Action {
    type V = ActionView;

    open spec fn view(&self) -> ActionView {
        match self {
            Action::ReadLine => ActionView::ReadLine,
            Action::MarkActivity => ActionView::MarkActivity,
            Action::LockState => ActionView::LockState,
            Action::Execute(command) => ActionView::Execute(command@),
            Action::UnlockState => ActionView::UnlockState,
            Action::Send(line) => ActionView::Send(line@),
            Action::SendQuietly(line) => ActionView::SendQuietly(line@),
            Action::RemoveStreamFile => ActionView::RemoveStreamFile,
            Action::Pause(ms) => ActionView::Pause(*ms),
            Action::NotifyClose => ActionView::NotifyClose,
            Action::HangUp => ActionView::HangUp,
        }
    }
}

/// Where a connection stands.
pub enum PhaseView {
    /// A line is awaited.
    Reading,
    /// A command with that action is being executed.
    Executing(Seq<char>),
    /// A response is being written; the daemon exits after it, or not.
    Sending(bool),
    /// The connection was left.
    Closed,
}

/// Where a connection stands.
#[derive(Debug, PartialEq)]
pub enum Phase {
    /// A line is awaited.
    Reading,
    /// A command with that action is being executed.
    Executing(String),
    /// A response is being written; the daemon exits after it, or not.
    Sending(bool),
    /// The connection was left.
    Closed,
}

impl View for Phase {
    type V = PhaseView;

    open spec fn view(&self) -> PhaseView {
        match self {
            Phase::Reading => PhaseView::Reading,
            Phase::Executing(action) => PhaseView::Executing(action@),
            Phase::Sending(closing) => PhaseView::Sending(*closing),
            Phase::Closed => PhaseView::Closed,
        }
    }
}

/// The actions, in order.
pub open spec fn action_views(actions: Seq<Action>) -> Seq<ActionView> {
    actions.map_values(|action: Action| action@)
}

/// What a line of input leads to.
pub open spec fn line_step(line: Seq<char>) -> (PhaseView, Seq<ActionView>) {
    match request_of(line) {
        RequestView::Blank => (PhaseView::Reading, seq![ActionView::ReadLine]),
        RequestView::Http => (PhaseView::Closed, seq![ActionView::HangUp]),
        RequestView::Invalid(message) => (
            PhaseView::Reading,
            seq![ActionView::SendQuietly(frame(invalid_json_view(message))), ActionView::ReadLine],
        ),
        RequestView::Command(action, command) => (
            PhaseView::Executing(action),
            seq![ActionView::MarkActivity, ActionView::LockState, ActionView::Execute(command)],
        ),
    }
}

/// What the last response before the daemon's exit leads to.
pub open spec fn closing_actions(stream_file: bool) -> Seq<ActionView> {
    let rest = seq![ActionView::Pause(CLOSE_PAUSE_MS), ActionView::NotifyClose, ActionView::HangUp];
    if stream_file {
        seq![ActionView::RemoveStreamFile] + rest
    } else {
        rest
    }
}

/// Where an event leads, and what is to be done on the way. An event that
/// cannot happen in a phase leads nowhere.
pub open spec fn step(stream_file: bool, phase: PhaseView, event: EventView) -> (
    PhaseView,
    Seq<ActionView>,
) {
    match (phase, event) {
        (PhaseView::Reading, EventView::EndOfInput) => (PhaseView::Closed, seq![ActionView::HangUp]),
        (PhaseView::Reading, EventView::ReadFailed) => (PhaseView::Closed, seq![ActionView::HangUp]),
        (PhaseView::Reading, EventView::Line(line)) => line_step(line),
        (PhaseView::Executing(action), EventView::Executed(response)) => (
            PhaseView::Sending(close_completed(action, response)),
            seq![
                ActionView::MarkActivity,
                ActionView::UnlockState,
                ActionView::Send(frame(response)),
            ],
        ),
        (PhaseView::Sending(_), EventView::Sent(false)) => (
            PhaseView::Closed,
            seq![ActionView::HangUp],
        ),
        (PhaseView::Sending(true), EventView::Sent(true)) => (
            PhaseView::Closed,
            closing_actions(stream_file),
        ),
        (PhaseView::Sending(false), EventView::Sent(true)) => (
            PhaseView::Reading,
            seq![ActionView::ReadLine],
        ),
        _ => (phase, Seq::empty()),
    }
}

/// The response that is written when something happens in a phase, if one is.
pub open spec fn response_to(phase: PhaseView, event: EventView) -> Option<JsonView> {
    match (phase, event) {
        (PhaseView::Reading, EventView::Line(line)) => match request_of(line) {
            RequestView::Invalid(message) => Some(invalid_json_view(message)),
            _ => None,
        },
        (PhaseView::Executing(_), EventView::Executed(response)) => Some(response),
        _ => None,
    }
}

/// Whether what an action writes, if it writes, carries that response.
pub open spec fn writes_only(action: ActionView, response: Option<JsonView>) -> bool {
    match action {
        ActionView::Send(line) => response matches Some(document) && carries(line, document),
        ActionView::SendQuietly(line) => response matches Some(document) && carries(
            line,
            document,
        ) && reads_as(line.drop_last(), document),
        _ => true,
    }
}

/// One client connection.
#[derive(Debug, PartialEq)]
pub struct Connection {
    pub phase: Phase,
    /// Whether there is a file that names the stream server's port.
    pub stream_file: bool,
}

impl Connection {
    /// A connection that awaits its first line.
    pub fn new(stream_file: bool) -> (r: Connection)
        ensures
            r.phase@ == PhaseView::Reading,
            r.stream_file == stream_file,
    {
        Connection { phase: Phase::Reading, stream_file }
    }

    fn on_line(&mut self, line: &str) -> (r: Vec<Action>)
        ensures
            (final(self).phase@, action_views(r@)) == line_step(line@),
            final(self).stream_file == old(self).stream_file,
            forall|i: int|
                0 <= i < r@.len() ==> writes_only(
                    (#[trigger] r@[i])@,
                    response_to(PhaseView::Reading, EventView::Line(line@)),
                ),
    {
        let mut actions: Vec<Action> = Vec::new();
        match read_request(line) {
            Request::Blank => {
                self.phase = Phase::Reading;
                actions.push(Action::ReadLine);
            },
            Request::Http => {
                self.phase = Phase::Closed;
                actions.push(Action::HangUp);
            },
            Request::Invalid(message) => {
                self.phase = Phase::Reading;
                proof {
                    complaints_are_plain(message@);
                }
                actions.push(
                    Action::SendQuietly(response_frame(invalid_json_response(message.as_str()))),
                );
                actions.push(Action::ReadLine);
            },
            Request::Command(action, command) => {
                self.phase = Phase::Executing(action);
                actions.push(Action::MarkActivity);
                actions.push(Action::LockState);
                actions.push(Action::Execute(command));
            },
        }
        assert(action_views(actions@) =~= line_step(line@).1);
        actions
    }

    /// Takes an event, and says what is to be done before the next. Whatever is
    /// written is one whole line that carries the response.
    pub fn on_event(&mut self, event: Event) -> (r: Vec<Action>)
        ensures
            (final(self).phase@, action_views(r@)) == step(
                old(self).stream_file,
                old(self).phase@,
                event@,
            ),
            final(self).stream_file == old(self).stream_file,
            forall|i: int|
                0 <= i < r@.len() ==> writes_only(
                    (#[trigger] r@[i])@,
                    response_to(old(self).phase@, event@),
                ),
    {
        let ghost expected = step(self.stream_file, self.phase@, event@).1;
        let mut actions: Vec<Action> = Vec::new();
        match (&self.phase, event) {
            (Phase::Reading, Event::EndOfInput) => {
                self.phase = Phase::Closed;
                actions.push(Action::HangUp);
            },
            (Phase::Reading, Event::ReadFailed) => {
                self.phase = Phase::Closed;
                actions.push(Action::HangUp);
            },
            (Phase::Reading, Event::Line(line)) => {
                return self.on_line(line.as_str());
            },
            (Phase::Executing(action), Event::Executed(response)) => {
                let closing = close_completed_response(action.as_str(), &response);
                self.phase = Phase::Sending(closing);
                actions.push(Action::MarkActivity);
                actions.push(Action::UnlockState);
                actions.push(Action::Send(response_frame(response)));
            },
            (Phase::Sending(_), Event::Sent(false)) => {
                self.phase = Phase::Closed;
                actions.push(Action::HangUp);
            },
            (Phase::Sending(true), Event::Sent(true)) => {
                self.phase = Phase::Closed;
                if self.stream_file {
                    actions.push(Action::RemoveStreamFile);
                }
                actions.push(Action::Pause(CLOSE_PAUSE_MS));
                actions.push(Action::NotifyClose);
                actions.push(Action::HangUp);
            },
            (Phase::Sending(false), Event::Sent(true)) => {
                self.phase = Phase::Reading;
                actions.push(Action::ReadLine);
            },
            _ => {},
        }
        assert(action_views(actions@) =~= expected);
        actions
    }
}

/// Where a series of events leads, and all that is done on the way.
pub open spec fn run(stream_file: bool, events: Seq<EventView>) -> (PhaseView, Seq<ActionView>)
    decreases events.len(),
{
    if events.len() == 0 {
        (PhaseView::Reading, Seq::empty())
    } else {
        let before = run(stream_file, events.drop_last());
        let last = step(stream_file, before.0, events.last());
        (last.0, before.1 + last.1)
    }
}

/// All that a series of actions writes.
pub open spec fn written(actions: Seq<ActionView>) -> Seq<char>
    decreases actions.len(),
{
    if actions.len() == 0 {
        Seq::empty()
    } else {
        written(actions.drop_last()) + match actions.last() {
            ActionView::Send(line) => line,
            ActionView::SendQuietly(line) => line,
            _ => Seq::empty(),
        }
    }
}

/// The responses to a series of events, in order.
pub open spec fn responses(stream_file: bool, events: Seq<EventView>) -> Seq<JsonView>
    decreases events.len(),
{
    if events.len() == 0 {
        Seq::empty()
    } else {
        let earlier = responses(stream_file, events.drop_last());
        match response_to(run(stream_file, events.drop_last()).0, events.last()) {
            Some(response) => earlier.push(response),
            None => earlier,
        }
    }
}

proof fn lemma_written_adds(a: Seq<ActionView>, b: Seq<ActionView>)
    ensures
        written(a + b) == written(a) + written(b),
    decreases b.len(),
{
    if b.len() == 0 {
        assert(a + b =~= a);
        assert(written(a) + written(b) =~= written(a));
    } else {
        assert((a + b).drop_last() =~= a + b.drop_last());
        lemma_written_adds(a, b.drop_last());
        assert(written(a + b) =~= written(a) + written(b));
    }
}

proof fn lemma_step_writes(stream_file: bool, phase: PhaseView, event: EventView)
    ensures
        written(step(stream_file, phase, event).1) == match response_to(phase, event) {
            Some(response) => frame(response),
            None => Seq::empty(),
        },
{
    reveal_with_fuel(written, 5);
    let actions = step(stream_file, phase, event).1;
    if actions.len() >= 1 {
        assert(actions.drop_last().len() == actions.len() - 1);
    }
    if actions.len() >= 2 {
        assert(actions.drop_last().drop_last().len() == actions.len() - 2);
    }
    if actions.len() >= 3 {
        assert(actions.drop_last().drop_last().drop_last().len() == actions.len() - 3);
    }
    assert(written(actions) =~= match response_to(phase, event) {
        Some(response) => frame(response),
        None => Seq::empty(),
    });
}

/// A connection writes the lines of its responses, in order, and nothing else.
pub proof fn connections_write_their_responses(stream_file: bool, events: Seq<EventView>)
    ensures
        written(run(stream_file, events).1) == frames(responses(stream_file, events)),
    decreases events.len(),
{
    if events.len() > 0 {
        let earlier = events.drop_last();
        let before = run(stream_file, earlier);
        connections_write_their_responses(stream_file, earlier);
        lemma_step_writes(stream_file, before.0, events.last());
        lemma_written_adds(before.1, step(stream_file, before.0, events.last()).1);
        match response_to(before.0, events.last()) {
            Some(response) => responses_follow_each_other(
                responses(stream_file, earlier),
                response,
            ),
            None => {
                assert(written(run(stream_file, events).1) =~= frames(
                    responses(stream_file, events),
                ));
            },
        }
    }
}

/// A client that reads lines from a connection and takes each for a document
/// gets the responses to what happened there, in order, where all are plain.
/// That every line carries its response is what taking an event ensures.
pub proof fn clients_read_the_responses(stream_file: bool, events: Seq<EventView>)
    requires
        forall|i: int|
            0 <= i < responses(stream_file, events).len() ==> carries(
                #[trigger] frame(responses(stream_file, events)[i]),
                responses(stream_file, events)[i],
            ) && plain(responses(stream_file, events)[i], MAX_DEPTH as nat),
    ensures
        ({
            let found = lines_of(written(run(stream_file, events).1));
            let expected = responses(stream_file, events);
            &&& found.len() == expected.len()
            &&& forall|i: int|
                0 <= i < expected.len() ==> reads_as(#[trigger] found[i], expected[i])
        }),
{
    connections_write_their_responses(stream_file, events);
    clients_get_the_responses(responses(stream_file, events));
}

/// How many of the actions are of a kind.
pub open spec fn count(actions: Seq<ActionView>, kind: spec_fn(ActionView) -> bool) -> nat
    decreases actions.len(),
{
    if actions.len() == 0 {
        0
    } else {
        count(actions.drop_last(), kind) + if kind(actions.last()) {
            1nat
        } else {
            0nat
        }
    }
}

proof fn lemma_count_adds(a: Seq<ActionView>, b: Seq<ActionView>, kind: spec_fn(ActionView) -> bool)
    ensures
        count(a + b, kind) == count(a, kind) + count(b, kind),
    decreases b.len(),
{
    if b.len() == 0 {
        assert(a + b == a);
    } else {
        assert((a + b).drop_last() == a + b.drop_last());
        assert((a + b).last() == b.last());
        lemma_count_adds(a, b.drop_last(), kind);
    }
}

/// Whether the action takes hold of the daemon's state.
pub open spec fn locks() -> spec_fn(ActionView) -> bool {
    |action: ActionView| action is LockState
}

/// Whether the action lets go of the daemon's state.
pub open spec fn unlocks() -> spec_fn(ActionView) -> bool {
    |action: ActionView| action is UnlockState
}

/// Whether the action executes a command.
pub open spec fn executes() -> spec_fn(ActionView) -> bool {
    |action: ActionView| action is Execute
}

/// Whether the action answers a command.
pub open spec fn answers() -> spec_fn(ActionView) -> bool {
    |action: ActionView| action is Send
}

/// Whether the action restarts the idle clock.
pub open spec fn marks() -> spec_fn(ActionView) -> bool {
    |action: ActionView| action is MarkActivity
}

/// One while a command is being executed, none otherwise.
pub open spec fn in_execution(phase: PhaseView) -> nat {
    if phase is Executing {
        1
    } else {
        0
    }
}

proof fn lemma_step_counts(stream_file: bool, phase: PhaseView, event: EventView)
    ensures
        ({
            let (next, actions) = step(stream_file, phase, event);
            &&& count(actions, locks()) + in_execution(phase) == count(actions, unlocks())
                + in_execution(next)
            &&& count(actions, executes()) == count(actions, locks())
            &&& count(actions, answers()) == count(actions, unlocks())
            &&& count(actions, marks()) == count(actions, executes()) + count(actions, answers())
        }),
{
    reveal_with_fuel(count, 5);
    let actions = step(stream_file, phase, event).1;
    if actions.len() >= 1 {
        assert(actions.drop_last().len() == actions.len() - 1);
    }
    if actions.len() >= 2 {
        assert(actions.drop_last().last() == actions[actions.len() - 2]);
    }
    if actions.len() >= 3 {
        assert(actions.drop_last().drop_last().last() == actions[actions.len() - 3]);
    }
    if actions.len() >= 4 {
        assert(actions.drop_last().drop_last().drop_last().last() == actions[actions.len() - 4]);
    }
}

/// Whatever happens on a connection: it holds the daemon's state exactly while
/// a command is being executed; every command but one in execution has had one
/// response; and the idle clock was restarted once for each command and once
/// for each response, and for nothing else.
pub proof fn commands_and_responses_pair_up(stream_file: bool, events: Seq<EventView>)
    ensures
        ({
            let (phase, actions) = run(stream_file, events);
            &&& count(actions, locks()) == count(actions, unlocks()) + in_execution(phase)
            &&& count(actions, executes()) == count(actions, answers()) + in_execution(phase)
            &&& count(actions, executes()) == count(actions, locks())
            &&& count(actions, answers()) == count(actions, unlocks())
            &&& count(actions, marks()) == count(actions, executes()) + count(actions, answers())
        }),
    decreases events.len(),
{
    if events.len() > 0 {
        let before = run(stream_file, events.drop_last());
        let last = step(stream_file, before.0, events.last());
        commands_and_responses_pair_up(stream_file, events.drop_last());
        lemma_step_counts(stream_file, before.0, events.last());
        lemma_count_adds(before.1, last.1, locks());
        lemma_count_adds(before.1, last.1, unlocks());
        lemma_count_adds(before.1, last.1, executes());
        lemma_count_adds(before.1, last.1, answers());
        lemma_count_adds(before.1, last.1, marks());
    }
}

/// The idle clock is restarted right before the state is let go of, and a
/// command is executed right after the clock was restarted and the state taken.
pub open spec fn marked_under_lock(actions: Seq<ActionView>) -> bool {
    forall|i: int|
        0 <= i < actions.len() ==> {
            &&& #[trigger] actions[i] is UnlockState ==> i >= 1 && actions[i - 1] is MarkActivity
            &&& actions[i] is Execute ==> i >= 2 && actions[i - 1] is LockState && actions[i
                - 2] is MarkActivity
        }
}

/// Whatever happens on a connection, an idle timer that waits for the state
/// while a command holds it finds the clock restarted once it gets hold of it:
/// the restart comes right before the state is let go of.
pub proof fn activity_is_marked_under_lock(stream_file: bool, events: Seq<EventView>)
    ensures
        marked_under_lock(run(stream_file, events).1),
    decreases events.len(),
{
    if events.len() > 0 {
        activity_is_marked_under_lock(stream_file, events.drop_last());
        let before = run(stream_file, events.drop_last());
        let last = step(stream_file, before.0, events.last());
        assert(marked_under_lock(last.1));
        let all = before.1 + last.1;
        assert forall|i: int| 0 <= i < all.len() implies {
            &&& #[trigger] all[i] is UnlockState ==> i >= 1 && all[i - 1] is MarkActivity
            &&& all[i] is Execute ==> i >= 2 && all[i - 1] is LockState && all[i
                - 2] is MarkActivity
        } by {
            if i >= before.1.len() {
                let k = i - before.1.len();
                assert(all[i] == last.1[k]);
            } else {
                assert(all[i] == before.1[i]);
            }
        }
    }
}

/// Whether the event at `i` is the response to a closing command that says
/// that the browser was closed.
pub open spec fn completes_close(stream_file: bool, events: Seq<EventView>, i: int) -> bool {
    match (run(stream_file, events.take(i)).0, events[i]) {
        (PhaseView::Executing(action), EventView::Executed(response)) => close_completed(
            action,
            response,
        ),
        _ => false,
    }
}

/// Whether some event completes a close.
pub open spec fn some_close(stream_file: bool, events: Seq<EventView>) -> bool {
    exists|i: int| 0 <= i < events.len() && #[trigger] completes_close(stream_file, events, i)
}

/// The daemon is told to exit only after a response to a closing command that
/// says that the browser was closed: asking for a close, or a response that
/// only asks for confirmation, does not end it.
pub proof fn exit_follows_a_completed_close(stream_file: bool, events: Seq<EventView>)
    ensures
        run(stream_file, events).0 == PhaseView::Sending(true) ==> some_close(stream_file, events),
        run(stream_file, events).1.contains(ActionView::NotifyClose) ==> some_close(
            stream_file,
            events,
        ),
    decreases events.len(),
{
    if events.len() > 0 {
        let earlier = events.drop_last();
        exit_follows_a_completed_close(stream_file, earlier);
        let before = run(stream_file, earlier);
        let last = step(stream_file, before.0, events.last());
        if some_close(stream_file, earlier) {
            let i = choose|i: int|
                0 <= i < earlier.len() && #[trigger] completes_close(stream_file, earlier, i);
            assert(events.take(i) == earlier.take(i));
            assert(completes_close(stream_file, events, i));
        }
        if last.0 == PhaseView::Sending(true) && before.0 != last.0 {
            assert(events.take(events.len() - 1) == earlier);
            assert(completes_close(stream_file, events, events.len() - 1));
        }
        let all = before.1 + last.1;
        if all.contains(ActionView::NotifyClose) {
            let k = choose|k: int| 0 <= k < all.len() && all[k] == ActionView::NotifyClose;
            if k < before.1.len() {
                assert(before.1[k] == ActionView::NotifyClose);
                assert(before.1.contains(ActionView::NotifyClose));
            } else {
                assert(last.1[k - before.1.len()] == ActionView::NotifyClose);
            }
        }
    }
}

/// The other way round: once a close is completed and its response written, the
/// daemon is told to exit.
pub proof fn a_completed_close_ends_the_daemon(
    stream_file: bool,
    events: Seq<EventView>,
    response: JsonView,
)
    requires
        run(stream_file, events).0 matches PhaseView::Executing(action) && close_completed(
            action,
            response,
        ),
    ensures
        ({
            let (phase, actions) = run(
                stream_file,
                events.push(EventView::Executed(response)).push(EventView::Sent(true)),
            );
            phase is Closed && actions.contains(ActionView::NotifyClose)
        }),
{
    let executed = events.push(EventView::Executed(response));
    let sent = executed.push(EventView::Sent(true));
    assert(executed.drop_last() == events);
    assert(sent.drop_last() == executed);
    reveal_with_fuel(run, 3);
    let actions = run(stream_file, sent).1;
    assert(actions[actions.len() - 2] == ActionView::NotifyClose);
}

/// A command that ends lets go of the state and is answered, whatever its
/// response says. Unless the response completes a close, the connection goes on
/// to read once the answer is written; a failure never completes one.
pub proof fn commands_that_end_let_go_of_the_state(
    stream_file: bool,
    events: Seq<EventView>,
    response: JsonView,
)
    requires
        run(stream_file, events).0 is Executing,
    ensures
        ({
            let (before, done) = run(stream_file, events);
            let (phase, actions) = run(stream_file, events.push(EventView::Executed(response)));
            let answered = run(
                stream_file,
                events.push(EventView::Executed(response)).push(EventView::Sent(true)),
            );
            &&& actions == done + seq![
                ActionView::MarkActivity,
                ActionView::UnlockState,
                ActionView::Send(frame(response)),
            ]
            &&& count(actions, locks()) == count(actions, unlocks())
            &&& phase == PhaseView::Sending(close_completed(before->Executing_0, response))
            &&& !close_completed(before->Executing_0, response) ==> answered == (
                PhaseView::Reading,
                actions.push(ActionView::ReadLine),
            )
            &&& !succeeded(response) ==> !close_completed(before->Executing_0, response)
        }),
{
    let executed = events.push(EventView::Executed(response));
    let sent = executed.push(EventView::Sent(true));
    assert(executed.drop_last() == events);
    assert(sent.drop_last() == executed);
    commands_and_responses_pair_up(stream_file, executed);
    let actions = run(stream_file, executed).1;
    assert(actions + seq![ActionView::ReadLine] =~= actions.push(ActionView::ReadLine));
}

/// A line that opens an HTTP request is neither executed nor answered: the
/// connection is left.
pub proof fn http_is_not_served(stream_file: bool, line: Seq<char>)
    requires
        http_line(trimmed(line)),
    ensures
        step(stream_file, PhaseView::Reading, EventView::Line(line)) == (
            PhaseView::Closed,
            seq![ActionView::HangUp],
        ),
{
    reveal_strlit("GET ");
    reveal_strlit("POST ");
    reveal_strlit("PUT ");
    reveal_strlit("DELETE ");
    reveal_strlit("PATCH ");
    reveal_strlit("HEAD ");
    reveal_strlit("OPTIONS ");
    reveal_strlit("CONNECT ");
    reveal_strlit("TRACE ");
}

/// A text that is no JSON is answered with the complaint, no command runs, the
/// idle clock is left alone, and the connection goes on.
pub proof fn bad_json_is_answered(stream_file: bool, line: Seq<char>, message: Seq<char>)
    requires
        trimmed(line).len() > 0,
        !http_line(trimmed(line)),
        json_parse(trimmed(line)) == Err::<JsonView, Seq<char>>(message),
    ensures
        step(stream_file, PhaseView::Reading, EventView::Line(line)) == (
            PhaseView::Reading,
            seq![ActionView::SendQuietly(frame(invalid_json_view(message))), ActionView::ReadLine],
        ),
{
}

/// A connection that was left stays left, and nothing is done on it.
pub proof fn closed_is_final(stream_file: bool, event: EventView)
    ensures
        step(stream_file, PhaseView::Closed, event) == (
            PhaseView::Closed,
            Seq::<ActionView>::empty(),
        ),
{
}

/// A line that is JSON is executed, whatever it holds: activity is marked, the
/// state is taken, and the document that was read is executed. The connection
/// remembers the text of its action, or nothing where it has none.
pub proof fn good_json_is_executed(stream_file: bool, line: Seq<char>, document: JsonView)
    requires
        !all_white(line),
        !http_line(trimmed(line)),
        json_parse(trimmed(line)) == Ok::<JsonView, Seq<char>>(document),
    ensures
        step(stream_file, PhaseView::Reading, EventView::Line(line)).1 == seq![
            ActionView::MarkActivity,
            ActionView::LockState,
            ActionView::Execute(document),
        ],
        step(
            stream_file,
            PhaseView::Reading,
            EventView::Line(line),
        ).0 matches PhaseView::Executing(action) && (forall|name: Seq<char>| #[trigger]
            holds(document, "action"@, JsonView::Text(name)) ==> action == name) && (action.len()
            > 0 ==> holds(document, "action"@, JsonView::Text(action))),
{
    other_lines_are_no_commands(Seq::empty(), line, Seq::empty());
}

/// A line of nothing but white space is passed over.
pub proof fn blank_lines_are_passed_over(stream_file: bool, line: Seq<char>)
    requires
        all_white(line),
    ensures
        step(stream_file, PhaseView::Reading, EventView::Line(line)) == (
            PhaseView::Reading,
            seq![ActionView::ReadLine],
        ),
{
    other_lines_are_no_commands(Seq::empty(), line, Seq::empty());
}

/// A client that has no more to send, and one that cannot be read, are left.
pub proof fn silent_clients_are_left(stream_file: bool)
    ensures
        step(stream_file, PhaseView::Reading, EventView::EndOfInput) == (
            PhaseView::Closed,
            seq![ActionView::HangUp],
        ),
        step(stream_file, PhaseView::Reading, EventView::ReadFailed) == (
            PhaseView::Closed,
            seq![ActionView::HangUp],
        ),
{
}

/// Whatever a command gives, the idle clock is restarted, the state is let go of
/// and the response is written, in this order and in one line.
pub proof fn every_response_is_written(stream_file: bool, action: Seq<char>, response: JsonView)
    ensures
        step(stream_file, PhaseView::Executing(action), EventView::Executed(response)).1 == seq![
            ActionView::MarkActivity,
            ActionView::UnlockState,
            ActionView::Send(json_text(response).push('\n')),
        ],
        step(stream_file, PhaseView::Executing(action), EventView::Executed(response)).0
            is Sending,
{
}

/// What follows the last response: the stream server's file goes, if there is
/// one; after a tenth of a second, in which the client can read, the daemon is
/// told to exit; and the connection is left.
pub open spec fn farewell(stream_file: bool) -> Seq<ActionView> {
    if stream_file {
        seq![
            ActionView::RemoveStreamFile,
            ActionView::Pause(100),
            ActionView::NotifyClose,
            ActionView::HangUp,
        ]
    } else {
        seq![ActionView::Pause(100), ActionView::NotifyClose, ActionView::HangUp]
    }
}

/// A response to a closing action that is a success and whose data says closed
/// ends the daemon once it is written, whatever else it holds.
pub proof fn direct_closes_end_the_daemon(
    stream_file: bool,
    action: Seq<char>,
    response: JsonView,
    data: JsonView,
)
    requires
        action == "close"@ || action == "confirm"@ || action == "__agent_browser_daemon_shutdown"@,
        holds(response, "success"@, JsonView::Bool(true)),
        holds(response, "data"@, data),
        holds(data, "closed"@, JsonView::Bool(true)),
    ensures
        step(stream_file, PhaseView::Executing(action), EventView::Executed(response)).0
            == PhaseView::Sending(true),
        step(stream_file, PhaseView::Sending(true), EventView::Sent(true)) == (
            PhaseView::Closed,
            farewell(stream_file),
        ),
{
    direct_closes_are_complete(action, response->Object_0, data->Object_0);
    assert(closing_actions(stream_file) =~= farewell(stream_file));
}

/// So does one whose data holds the result of what was confirmed, where that is
/// a success whose data says closed.
pub proof fn confirmed_closes_end_the_daemon(
    stream_file: bool,
    action: Seq<char>,
    response: JsonView,
    data: JsonView,
    result: JsonView,
    inner: JsonView,
)
    requires
        action == "close"@ || action == "confirm"@ || action == "__agent_browser_daemon_shutdown"@,
        holds(response, "success"@, JsonView::Bool(true)),
        holds(response, "data"@, data),
        holds(data, "result"@, result),
        holds(result, "success"@, JsonView::Bool(true)),
        holds(result, "data"@, inner),
        holds(inner, "closed"@, JsonView::Bool(true)),
    ensures
        step(stream_file, PhaseView::Executing(action), EventView::Executed(response)).0
            == PhaseView::Sending(true),
{
    confirmed_closes_are_complete(
        action,
        response->Object_0,
        data->Object_0,
        result->Object_0,
        inner->Object_0,
    );
}

/// After any other response the connection reads on, once it is written: after
/// one to another action, one that is no success, and one that says closed
/// neither in its data nor in the data of a result in there.
pub proof fn other_responses_leave_the_daemon_alone(
    stream_file: bool,
    action: Seq<char>,
    response: JsonView,
)
    requires
        ({
            ||| action != "close"@ && action != "confirm"@ && action
                != "__agent_browser_daemon_shutdown"@
            ||| !holds(response, "success"@, JsonView::Bool(true))
            ||| forall|data: JsonView| #[trigger]
                holds(response, "data"@, data) ==> !holds(data, "closed"@, JsonView::Bool(true))
                    && forall|result: JsonView| #[trigger]
                    holds(data, "result"@, result) ==> !holds(
                        result,
                        "success"@,
                        JsonView::Bool(true),
                    )
            ||| forall|data: JsonView| #[trigger]
                holds(response, "data"@, data) ==> !holds(data, "closed"@, JsonView::Bool(true))
                    && forall|result: JsonView, inner: JsonView|
                    #![trigger holds(data, "result"@, result), holds(result, "data"@, inner)]
                    holds(data, "result"@, result) && holds(result, "data"@, inner) ==> !holds(
                        inner,
                        "closed"@,
                        JsonView::Bool(true),
                    )
        }),
    ensures
        step(stream_file, PhaseView::Executing(action), EventView::Executed(response)).0
            == PhaseView::Sending(false),
        step(stream_file, PhaseView::Sending(false), EventView::Sent(true)) == (
            PhaseView::Reading,
            seq![ActionView::ReadLine],
        ),
{
    if close_completed(action, response) {
        other_responses_complete_no_close(action, response);
    }
}

/// A connection on which a response cannot be written is left, and the daemon is
/// not told to exit.
pub proof fn lost_responses_only_end_the_connection(stream_file: bool, closing: bool)
    ensures
        step(stream_file, PhaseView::Sending(closing), EventView::Sent(false)) == (
            PhaseView::Closed,
            seq![ActionView::HangUp],
        ),
{
}

/// What cannot happen in a phase changes nothing there.
pub proof fn stray_events_change_nothing(stream_file: bool, phase: PhaseView, event: EventView)
    requires
        phase is Reading ==> event is Executed || event is Sent,
        phase is Executing ==> !(event is Executed),
        phase is Sending ==> !(event is Sent),
    ensures
        step(stream_file, phase, event) == (phase, Seq::<ActionView>::empty()),
{
}

} // verus!
