//! Scenarios: what a run asks of the daemon and of the browser, one step after
//! the other, and what each answer has to say for the run to go on.

use crate::e2e::frames::{frame_path, reference_frame_path};
use crate::e2e::literal::{document, fields_view, fits, push_field, Literal, LiteralView};
use crate::e2e::replies::{
    failure, find_value, has_attribute, has_text, is_failure, is_success, node_has_attribute,
    reference, reference_named, text_views, value_at,
};
use crate::json::{member, text_of, whole_of, Json, JsonView};
use crate::protocol::{holds, succeeded};
use crate::scan::{contains_text, occurs};
use crate::text::same_text;
use vstd::prelude::*;

verus! {

/// How long a condition is waited for.
pub const AWAIT_LIMIT_MS: u64 = 5000;

/// How long to wait before a condition is looked at again.
pub const AWAIT_PAUSE_MS: u64 = 25;

/// What a reply has to say.
pub enum ExpectView {
    Success,
    Refusal(Seq<char>),
    At(Seq<Seq<char>>, LiteralView),
}

/// What a reply has to say.
#[derive(Debug, PartialEq)]
pub enum Expect {
    /// That it worked.
    Success,
    /// That it did not, with an error that holds that text.
    Refusal(String),
    /// Inside the members of these names, one inside the other, that.
    At(Vec<String>, Literal),
}

impl View for Expect {
    type V = ExpectView;

    open spec fn view(&self) -> ExpectView {
        match self {
            Expect::Success => ExpectView::Success,
            Expect::Refusal(text) => ExpectView::Refusal(text@),
            Expect::At(path, literal) => ExpectView::At(text_views(path@), literal@),
        }
    }
}

/// The expectations of a list.
pub open spec fn expect_views(expects: Seq<Expect>) -> Seq<ExpectView> {
    expects.map_values(|expect: Expect| expect@)
}

/// The error that a reply reports, or nothing.
pub open spec fn error_text(reply: JsonView) -> Seq<char> {
    match text_of(member(reply, "error"@)) {
        Some(text) => text,
        None => ""@,
    }
}

/// Whether a reply says what it has to.
pub open spec fn met(expect: ExpectView, reply: JsonView) -> bool {
    match expect {
        ExpectView::Success => succeeded(reply),
        ExpectView::Refusal(text) => failure(reply) && occurs(error_text(reply), text),
        ExpectView::At(path, literal) => match value_at(reply, path) {
            Some(value) => fits(literal, value),
            None => false,
        },
    }
}

/// Whether a reply says all that it has to.
pub open spec fn all_met(expects: Seq<ExpectView>, reply: JsonView) -> bool {
    forall|i: int| 0 <= i < expects.len() ==> met(#[trigger] expects[i], reply)
}

fn meets(expect: &Expect, reply: &Json) -> (r: bool)
    ensures
        r == met(expect@, reply@),
{
    match expect {
        Expect::Success => is_success(reply),
        Expect::Refusal(text) => {
            if !is_failure(reply) {
                return false;
            }
            let error = match reply.get("error") {
                Some(value) => match value.as_text() {
                    Some(text) => text,
                    None => "",
                },
                None => "",
            };
            contains_text(error, text.as_str())
        },
        Expect::At(path, literal) => match find_value(reply, path) {
            Some(value) => literal.fits_json(value),
            None => false,
        },
    }
}

fn meets_all(expects: &Vec<Expect>, reply: &Json) -> (r: bool)
    ensures
        r == all_met(expect_views(expects@), reply@),
{
    let ghost all = expect_views(expects@);
    let n: usize = expects.len();
    let mut i: usize = 0;
    while i < n
        invariant
            i <= n,
            n == expects@.len(),
            all == expect_views(expects@),
            forall|k: int| 0 <= k < i ==> met(#[trigger] all[k], reply@),
        decreases n - i,
    {
        assert(all[i as int] == expects@[i as int]@);
        if !meets(&expects[i], reply) {
            return false;
        }
        i = i + 1;
    }
    true
}

/// What has to hold of a control that is looked up, where it matters.
#[derive(Clone, Copy, Debug, PartialEq, Eq, Structural)]
pub struct Facts {
    /// Whether its frame has a browser session of its own.
    pub own_session: Option<bool>,
    /// Whether its frame is the one that commands go to.
    pub selected: Option<bool>,
}

/// One step of a scenario. Steps speak of earlier ones by number.
pub enum StepView {
    Send(LiteralView, Seq<ExpectView>),
    Act(usize, Seq<char>, Seq<char>, Seq<ExpectView>),
    Await(Seq<char>),
    Find(usize, Seq<char>, Facts),
    Sessions(u64),
    Call(usize, Seq<char>, Seq<ExpectView>),
    PointAt(usize, i64, i64, Seq<char>),
    Frames(usize, Option<usize>, usize),
    HitNode(usize, usize),
    HitInside(usize, usize, Seq<char>),
    Settle(usize, Seq<ExpectView>),
    StopServers,
}

/// One step of a scenario. Steps speak of earlier ones by number.
#[derive(Debug, PartialEq)]
pub enum Step {
    /// Send a command to the daemon.
    Send(Literal, Vec<Expect>),
    /// Do something to the control of that name in a snapshot.
    Act(usize, String, String, Vec<Expect>),
    /// Evaluate a script until it says true.
    Await(String),
    /// Look up the control of that name in a snapshot. It has to be a node of a
    /// frame.
    Find(usize, String, Facts),
    /// There have to be so many frames with browser sessions of their own.
    Sessions(u64),
    /// Call a function on a control that was looked up.
    Call(usize, String, Vec<Expect>),
    /// At that point of a control's frame there has to be an element with that
    /// identifier.
    PointAt(usize, i64, i64, String),
    /// A control has to lie so many frames deep. Where there is a second one, it
    /// has to lie as deep, with the first two frames in common and not the third.
    Frames(usize, Option<usize>, usize),
    /// The centre of a control has to be taken by another one.
    HitNode(usize, usize),
    /// The centre of a control has to be taken by an element with that
    /// identifier, in the second of the frames that lead to the control.
    HitInside(usize, usize, String),
    /// An earlier reply has to say that.
    Settle(usize, Vec<Expect>),
    /// The servers of the pages are no longer needed.
    StopServers,
}

impl View for Step {
    type V = StepView;

    open spec fn view(&self) -> StepView {
        match self {
            Step::Send(command, expects) => StepView::Send(command@, expect_views(expects@)),
            Step::Act(snapshot, name, action, expects) => StepView::Act(
                *snapshot,
                name@,
                action@,
                expect_views(expects@),
            ),
            Step::Await(script) => StepView::Await(script@),
            Step::Find(snapshot, name, facts) => StepView::Find(*snapshot, name@, *facts),
            Step::Sessions(count) => StepView::Sessions(*count),
            Step::Call(found, function, expects) => StepView::Call(
                *found,
                function@,
                expect_views(expects@),
            ),
            Step::PointAt(found, x, y, id) => StepView::PointAt(*found, *x, *y, id@),
            Step::Frames(target, overlay, depth) => StepView::Frames(*target, *overlay, *depth),
            Step::HitNode(target, overlay) => StepView::HitNode(*target, *overlay),
            Step::HitInside(target, frames, id) => StepView::HitInside(*target, *frames, id@),
            Step::Settle(step, expects) => StepView::Settle(*step, expect_views(expects@)),
            Step::StopServers => StepView::StopServers,
        }
    }
}

/// The steps of a list.
pub open spec fn step_views(steps: Seq<Step>) -> Seq<StepView> {
    steps.map_values(|step: Step| step@)
}

/// What a step leaves for later ones.
pub enum OutcomeView {
    Nothing,
    Reply(JsonView),
    Found(Seq<char>, i64),
    Path(Seq<Seq<char>>),
    Described(i64, JsonView),
}

/// What a step leaves for later ones.
#[derive(Debug, PartialEq)]
pub enum Outcome {
    Nothing,
    /// What came back.
    Reply(Json),
    /// The frame of a control, and its node there.
    Found(String, i64),
    /// The frames that lead to a control.
    Path(Vec<String>),
    /// A node that was hit, and its description.
    Described(i64, Json),
}

impl View for Outcome {
    type V = OutcomeView;

    open spec fn view(&self) -> OutcomeView {
        match self {
            Outcome::Nothing => OutcomeView::Nothing,
            Outcome::Reply(reply) => OutcomeView::Reply(reply@),
            Outcome::Found(frame, node) => OutcomeView::Found(frame@, *node),
            Outcome::Path(path) => OutcomeView::Path(text_views(path@)),
            Outcome::Described(node, reply) => OutcomeView::Described(*node, reply@),
        }
    }
}

/// The outcomes of a list.
pub open spec fn outcome_views(outcomes: Seq<Outcome>) -> Seq<OutcomeView> {
    outcomes.map_values(|outcome: Outcome| outcome@)
}

/// What the daemon knows of a control.
pub struct ControlView {
    pub frame: Option<Seq<char>>,
    pub node: Option<i64>,
    pub own_session: bool,
    pub selected: bool,
}

/// What the daemon knows of a control.
#[derive(Debug, PartialEq)]
pub struct Control {
    /// The frame that it lies in, unless that is the page's own.
    pub frame: Option<String>,
    /// Its node there.
    pub node: Option<i64>,
    /// Whether its frame has a browser session of its own.
    pub own_session: bool,
    /// Whether its frame is the one that commands go to.
    pub selected: bool,
}

impl View for Control {
    type V = ControlView;

    open spec fn view(&self) -> ControlView {
        ControlView {
            frame: match self.frame {
                Some(frame) => Some(frame@),
                None => None,
            },
            node: self.node,
            own_session: self.own_session,
            selected: self.selected,
        }
    }
}

/// What a run is told.
pub enum EventView {
    Done,
    Reply(JsonView),
    Found(Option<ControlView>),
    Sessions(u64),
    Deadline,
}

/// What a run is told.
#[derive(Debug, PartialEq)]
pub enum Event {
    /// What needs no answer was done.
    Done,
    /// What came back.
    Reply(Json),
    /// The control that was looked up, if there is one.
    Found(Option<Control>),
    /// How many frames have browser sessions of their own.
    Sessions(u64),
    /// The deadline has passed.
    Deadline,
}

impl View for Event {
    type V = EventView;

    open spec fn view(&self) -> EventView {
        match self {
            Event::Done => EventView::Done,
            Event::Reply(reply) => EventView::Reply(reply@),
            Event::Found(control) => EventView::Found(
                match control {
                    Some(found) => Some(found@),
                    None => None,
                },
            ),
            Event::Sessions(count) => EventView::Sessions(*count),
            Event::Deadline => EventView::Deadline,
        }
    }
}

/// What a run asks for.
pub enum ActionView {
    Execute(JsonView),
    StartDeadline(u64),
    Pause(u64),
    LookUp(Seq<char>),
    CountSessions,
    Call(Seq<char>, i64, Seq<char>),
    DescribeAt(Seq<char>, i64, i64),
    FrameTree,
    HitCentre(i64),
    DescribeHit(i64),
    Look,
    StopServers,
    Finish,
    Fail,
}

/// What a run asks for.
#[derive(Debug, PartialEq)]
pub enum Action {
    /// Execute a command.
    Execute(Json),
    /// From now on, so many milliseconds until the deadline; it is off again
    /// once anything but a command or a pause is asked for.
    StartDeadline(u64),
    /// Wait so many milliseconds.
    Pause(u64),
    /// Look up the control behind a reference.
    LookUp(String),
    /// Count the frames with browser sessions of their own.
    CountSessions,
    /// Call a function on a node of a frame.
    Call(String, i64, String),
    /// Describe the node at a point of a frame.
    DescribeAt(String, i64, i64),
    /// Get the tree of the page's frames.
    FrameTree,
    /// Find out which node takes a click on the centre of a node.
    HitCentre(i64),
    /// Describe that node, which such a click hit.
    DescribeHit(i64),
    /// Nothing needs to be done.
    Look,
    /// Stop the servers of the pages.
    StopServers,
    /// The run is over, and all was as it had to be.
    Finish,
    /// The run is over, and something was not as it had to be.
    Fail,
}

impl View for Action {
    type V = ActionView;

    open spec fn view(&self) -> ActionView {
        match self {
            Action::Execute(command) => ActionView::Execute(command@),
            Action::StartDeadline(ms) => ActionView::StartDeadline(*ms),
            Action::Pause(ms) => ActionView::Pause(*ms),
            Action::LookUp(reference) => ActionView::LookUp(reference@),
            Action::CountSessions => ActionView::CountSessions,
            Action::Call(frame, node, function) => ActionView::Call(frame@, *node, function@),
            Action::DescribeAt(frame, x, y) => ActionView::DescribeAt(frame@, *x, *y),
            Action::FrameTree => ActionView::FrameTree,
            Action::HitCentre(node) => ActionView::HitCentre(*node),
            Action::DescribeHit(node) => ActionView::DescribeHit(*node),
            Action::Look => ActionView::Look,
            Action::StopServers => ActionView::StopServers,
            Action::Finish => ActionView::Finish,
            Action::Fail => ActionView::Fail,
        }
    }
}

/// How far the present step has come.
#[derive(Clone, Copy, Debug, PartialEq, Eq, Structural)]
pub enum Phase {
    /// Its first request is out.
    First,
    /// A script is being evaluated.
    Polling,
    /// It waits before it evaluates the script again.
    Pausing,
    /// That node, which was hit, is being described.
    Describing(i64),
}

/// Whether a run goes on.
#[derive(Clone, Copy, Debug, PartialEq, Eq, Structural)]
pub enum Status {
    Running,
    Finished,
    Failed,
}

/// The reply that a step left.
pub open spec fn reply_of(outcomes: Seq<OutcomeView>, step: usize) -> Option<JsonView> {
    if step < outcomes.len() {
        match outcomes[step as int] {
            OutcomeView::Reply(reply) => Some(reply),
            _ => None,
        }
    } else {
        None
    }
}

/// The control that a step found: its frame, and its node there.
pub open spec fn found_of(outcomes: Seq<OutcomeView>, step: usize) -> Option<(Seq<char>, i64)> {
    if step < outcomes.len() {
        match outcomes[step as int] {
            OutcomeView::Found(frame, node) => Some((frame, node)),
            _ => None,
        }
    } else {
        None
    }
}

/// The frames that a step found to lead to a control.
pub open spec fn path_of(outcomes: Seq<OutcomeView>, step: usize) -> Option<Seq<Seq<char>>> {
    if step < outcomes.len() {
        match outcomes[step as int] {
            OutcomeView::Path(path) => Some(path),
            _ => None,
        }
    } else {
        None
    }
}

/// The reference in a snapshot that a step left.
pub open spec fn reference_in(outcomes: Seq<OutcomeView>, snapshot: usize, name: Seq<char>) -> Option<
    Seq<char>,
> {
    match reply_of(outcomes, snapshot) {
        Some(reply) => reference(reply, name),
        None => None,
    }
}

/// The command that does something to a control.
pub open spec fn act_command(action: Seq<char>, control: Seq<char>) -> LiteralView {
    LiteralView::Record(
        seq![
            ("action"@, LiteralView::Word(action)),
            ("selector"@, LiteralView::Word("@"@ + control)),
        ],
    )
}

/// The command that evaluates a script.
pub open spec fn evaluate_command(script: Seq<char>) -> LiteralView {
    LiteralView::Record(
        seq![
            ("action"@, LiteralView::Word("evaluate"@)),
            ("script"@, LiteralView::Word(script)),
        ],
    )
}

/// The command that does something to a control.
pub fn reference_command(action: &str, control: &str) -> (r: Literal)
    ensures
        r@ == act_command(action@, control@),
{
    let mut fields: Vec<(String, Literal)> = Vec::new();
    push_field(&mut fields, "action", Literal::word(action));
    push_field(&mut fields, "selector", Literal::Word("@".to_owned().concat(control)));
    assert(fields_view(fields@) =~= act_command(action@, control@)->Record_0);
    Literal::record(fields)
}

/// The command that evaluates a script.
pub fn evaluation(script: &str) -> (r: Literal)
    ensures
        r@ == evaluate_command(script@),
{
    let mut fields: Vec<(String, Literal)> = Vec::new();
    push_field(&mut fields, "action", Literal::word("evaluate"));
    push_field(&mut fields, "script", Literal::word(script));
    assert(fields_view(fields@) =~= evaluate_command(script@)->Record_0);
    Literal::record(fields)
}

/// What a step asks for first, if it can.
pub open spec fn request(step: StepView, outcomes: Seq<OutcomeView>) -> Option<ActionView> {
    match step {
        StepView::Send(command, _) => Some(ActionView::Execute(document(command))),
        StepView::Act(snapshot, name, action, _) => match reference_in(outcomes, snapshot, name) {
            Some(control) => Some(ActionView::Execute(document(act_command(action, control)))),
            None => None,
        },
        StepView::Await(_) => Some(ActionView::StartDeadline(AWAIT_LIMIT_MS)),
        StepView::Find(snapshot, name, _) => match reference_in(outcomes, snapshot, name) {
            Some(control) => Some(ActionView::LookUp(control)),
            None => None,
        },
        StepView::Sessions(_) => Some(ActionView::CountSessions),
        StepView::Call(found, function, _) => match found_of(outcomes, found) {
            Some((frame, node)) => Some(ActionView::Call(frame, node, function)),
            None => None,
        },
        StepView::PointAt(found, x, y, _) => match found_of(outcomes, found) {
            Some((frame, _)) => Some(ActionView::DescribeAt(frame, x, y)),
            None => None,
        },
        StepView::Frames(_, _, _) => Some(ActionView::FrameTree),
        StepView::HitNode(target, _) => match found_of(outcomes, target) {
            Some((_, node)) => Some(ActionView::HitCentre(node)),
            None => None,
        },
        StepView::HitInside(target, _, _) => match found_of(outcomes, target) {
            Some((_, node)) => Some(ActionView::HitCentre(node)),
            None => None,
        },
        StepView::Settle(_, _) => Some(ActionView::Look),
        StepView::StopServers => Some(ActionView::StopServers),
    }
}

/// What an answer means for a step.
pub enum VerdictView {
    /// The step is done.
    Next(OutcomeView),
    /// The step asks for more.
    Again(Phase, ActionView),
    /// The answer is not what it has to be.
    Wrong,
}

/// What an answer means for a step.
#[derive(Debug, PartialEq)]
pub enum Verdict {
    /// The step is done.
    Next(Outcome),
    /// The step asks for more.
    Again(Phase, Action),
    /// The answer is not what it has to be.
    Wrong,
}

impl View for Verdict {
    type V = VerdictView;

    open spec fn view(&self) -> VerdictView {
        match self {
            Verdict::Next(outcome) => VerdictView::Next(outcome@),
            Verdict::Again(phase, action) => VerdictView::Again(*phase, action@),
            Verdict::Wrong => VerdictView::Wrong,
        }
    }
}

/// A reply that is kept if it says all that it has to.
pub open spec fn kept(expects: Seq<ExpectView>, reply: JsonView) -> VerdictView {
    if all_met(expects, reply) {
        VerdictView::Next(OutcomeView::Reply(reply))
    } else {
        VerdictView::Wrong
    }
}

/// Whether the reply to a script says true.
pub open spec fn says_true(reply: JsonView) -> bool {
    value_at(reply, seq!["data"@, "result"@]) == Some(JsonView::Bool(true))
}

/// Whether what is known of a control is what has to hold of it.
pub open spec fn facts_hold(facts: Facts, control: ControlView) -> bool {
    &&& facts.own_session matches Some(b) ==> control.own_session == b
    &&& facts.selected matches Some(b) ==> control.selected == b
}

/// What a control that was looked up means for its step.
pub open spec fn looked_up(facts: Facts, control: Option<ControlView>) -> VerdictView {
    match control {
        Some(found) => match (found.frame, found.node) {
            (Some(frame), Some(node)) => if facts_hold(facts, found) {
                VerdictView::Next(OutcomeView::Found(frame, node))
            } else {
                VerdictView::Wrong
            },
            _ => VerdictView::Wrong,
        },
        None => VerdictView::Wrong,
    }
}

/// The frames that lead to a control, in the tree that a reply brings.
pub open spec fn path_to(
    reply: JsonView,
    outcomes: Seq<OutcomeView>,
    step: usize,
) -> Option<Seq<Seq<char>>> {
    match (member(reply, "frameTree"@), found_of(outcomes, step)) {
        (Some(tree), Some((frame, _))) => frame_path(tree, frame),
        _ => None,
    }
}

/// Whether two paths of one length part after their first two frames.
pub open spec fn part_after_two(a: Seq<Seq<char>>, b: Seq<Seq<char>>) -> bool {
    &&& a.len() == b.len()
    &&& a.len() >= 3
    &&& a[0] == b[0]
    &&& a[1] == b[1]
    &&& a[2] != b[2]
}

/// What the tree of the page's frames means for its step.
pub open spec fn frames_seen(
    target: usize,
    overlay: Option<usize>,
    depth: usize,
    outcomes: Seq<OutcomeView>,
    reply: JsonView,
) -> VerdictView {
    match path_to(reply, outcomes, target) {
        Some(path) => {
            let apart = match overlay {
                Some(other) => match path_to(reply, outcomes, other) {
                    Some(other_path) => part_after_two(path, other_path),
                    None => false,
                },
                None => true,
            };
            if path.len() == depth && apart {
                VerdictView::Next(OutcomeView::Path(path))
            } else {
                VerdictView::Wrong
            }
        },
        None => VerdictView::Wrong,
    }
}

/// The node that a click hit, where the reply names one by a whole number.
pub open spec fn node_hit(hit: JsonView) -> Option<i64> {
    whole_of(member(hit, "backendNodeId"@))
}

/// Whether a click hit a control that was looked up.
pub open spec fn hit_node(hit: JsonView, outcomes: Seq<OutcomeView>, overlay: usize) -> bool {
    match found_of(outcomes, overlay) {
        Some((frame, node)) => text_of(member(hit, "frameId"@)) == Some(frame) && node_hit(hit)
            == Some(node),
        None => false,
    }
}

/// Whether a click hit the second of the frames that lead to a control.
pub open spec fn hit_second_frame(hit: JsonView, outcomes: Seq<OutcomeView>, frames: usize) -> bool {
    match path_of(outcomes, frames) {
        Some(path) => path.len() >= 2 && text_of(member(hit, "frameId"@)) == Some(path[1]),
        None => false,
    }
}

/// What an answer means for a step.
pub open spec fn absorb(
    step: StepView,
    phase: Phase,
    outcomes: Seq<OutcomeView>,
    event: EventView,
) -> VerdictView {
    match (step, phase, event) {
        (StepView::Send(_, expects), Phase::First, EventView::Reply(reply)) => kept(expects, reply),
        (StepView::Act(_, _, _, expects), Phase::First, EventView::Reply(reply)) => kept(
            expects,
            reply,
        ),
        (StepView::Call(_, _, expects), Phase::First, EventView::Reply(reply)) => kept(
            expects,
            reply,
        ),
        (StepView::Await(script), Phase::First, EventView::Done) => VerdictView::Again(
            Phase::Polling,
            ActionView::Execute(document(evaluate_command(script))),
        ),
        (StepView::Await(_), Phase::Polling, EventView::Reply(reply)) => if !succeeded(reply)
            || member(reply, "data"@) is None {
            VerdictView::Wrong
        } else if says_true(reply) {
            VerdictView::Next(OutcomeView::Reply(reply))
        } else {
            VerdictView::Again(Phase::Pausing, ActionView::Pause(AWAIT_PAUSE_MS))
        },
        (StepView::Await(script), Phase::Pausing, EventView::Done) => VerdictView::Again(
            Phase::Polling,
            ActionView::Execute(document(evaluate_command(script))),
        ),
        (StepView::Find(_, _, facts), Phase::First, EventView::Found(control)) => looked_up(
            facts,
            control,
        ),
        (StepView::Sessions(count), Phase::First, EventView::Sessions(counted)) => if count
            == counted {
            VerdictView::Next(OutcomeView::Nothing)
        } else {
            VerdictView::Wrong
        },
        (StepView::PointAt(_, _, _, id), Phase::First, EventView::Reply(reply)) => if has_attribute(
            reply,
            "id"@,
            id,
        ) {
            VerdictView::Next(OutcomeView::Reply(reply))
        } else {
            VerdictView::Wrong
        },
        (
            StepView::Frames(target, overlay, depth),
            Phase::First,
            EventView::Reply(reply),
        ) => frames_seen(target, overlay, depth, outcomes, reply),
        (StepView::HitNode(_, overlay), Phase::First, EventView::Reply(hit)) => if hit_node(
            hit,
            outcomes,
            overlay,
        ) {
            VerdictView::Next(OutcomeView::Reply(hit))
        } else {
            VerdictView::Wrong
        },
        (StepView::HitInside(_, frames, _), Phase::First, EventView::Reply(hit)) => match node_hit(
            hit,
        ) {
            Some(node) => if hit_second_frame(hit, outcomes, frames) {
                VerdictView::Again(Phase::Describing(node), ActionView::DescribeHit(node))
            } else {
                VerdictView::Wrong
            },
            None => VerdictView::Wrong,
        },
        (StepView::HitInside(_, _, id), Phase::Describing(node), EventView::Reply(reply)) => if
        has_attribute(reply, "id"@, id) {
            VerdictView::Next(OutcomeView::Described(node, reply))
        } else {
            VerdictView::Wrong
        },
        (StepView::Settle(step, expects), Phase::First, EventView::Done) => match reply_of(
            outcomes,
            step,
        ) {
            Some(reply) => if all_met(expects, reply) {
                VerdictView::Next(OutcomeView::Nothing)
            } else {
                VerdictView::Wrong
            },
            None => VerdictView::Wrong,
        },
        (StepView::StopServers, Phase::First, EventView::Done) => VerdictView::Next(
            OutcomeView::Nothing,
        ),
        _ => VerdictView::Wrong,
    }
}

/// Where a run stands.
pub struct RunView {
    pub steps: Seq<StepView>,
    pub phase: Phase,
    pub outcomes: Seq<OutcomeView>,
    pub status: Status,
}

/// A run on its way to the next step, or to its end where there is none.
pub open spec fn proceed(steps: Seq<StepView>, outcomes: Seq<OutcomeView>) -> (
    RunView,
    ActionView,
) {
    if outcomes.len() >= steps.len() {
        (
            RunView { steps, phase: Phase::First, outcomes, status: Status::Finished },
            ActionView::Finish,
        )
    } else {
        match request(steps[outcomes.len() as int], outcomes) {
            Some(action) => (
                RunView { steps, phase: Phase::First, outcomes, status: Status::Running },
                action,
            ),
            None => (
                RunView { steps, phase: Phase::First, outcomes, status: Status::Failed },
                ActionView::Fail,
            ),
        }
    }
}

/// Where an answer leads a run, and what it asks for next. A run that is over
/// stays as it is.
pub open spec fn advance(run: RunView, event: EventView) -> (RunView, ActionView) {
    match run.status {
        Status::Finished => (run, ActionView::Finish),
        Status::Failed => (run, ActionView::Fail),
        Status::Running => if run.outcomes.len() < run.steps.len() {
            match absorb(run.steps[run.outcomes.len() as int], run.phase, run.outcomes, event) {
                VerdictView::Next(outcome) => proceed(run.steps, run.outcomes.push(outcome)),
                VerdictView::Again(phase, action) => (RunView { phase, ..run }, action),
                VerdictView::Wrong => (
                    RunView { status: Status::Failed, ..run },
                    ActionView::Fail,
                ),
            }
        } else {
            (run, ActionView::Fail)
        },
    }
}

/// A run of a scenario.
#[derive(Debug, PartialEq)]
pub struct Run {
    pub steps: Vec<Step>,
    pub phase: Phase,
    /// What the steps so far have left; there are as many as steps are done.
    pub outcomes: Vec<Outcome>,
    pub status: Status,
}

impl View for Run {
    type V = RunView;

    open spec fn view(&self) -> RunView {
        RunView {
            steps: step_views(self.steps@),
            phase: self.phase,
            outcomes: outcome_views(self.outcomes@),
            status: self.status,
        }
    }
}

impl Run {
    fn reply(&self, step: usize) -> (r: Option<&Json>)
        ensures
            match r {
                Some(reply) => reply_of(self@.outcomes, step) == Some(reply@),
                None => reply_of(self@.outcomes, step) is None,
            },
    {
        if step < self.outcomes.len() {
            assert(self@.outcomes[step as int] == self.outcomes@[step as int]@);
            match &self.outcomes[step] {
                Outcome::Reply(reply) => Some(reply),
                _ => None,
            }
        } else {
            None
        }
    }

    fn found(&self, step: usize) -> (r: Option<(&str, i64)>)
        ensures
            match r {
                Some((frame, node)) => found_of(self@.outcomes, step) == Some((frame@, node)),
                None => found_of(self@.outcomes, step) is None,
            },
    {
        if step < self.outcomes.len() {
            assert(self@.outcomes[step as int] == self.outcomes@[step as int]@);
            match &self.outcomes[step] {
                Outcome::Found(frame, node) => Some((frame.as_str(), *node)),
                _ => None,
            }
        } else {
            None
        }
    }

    fn path(&self, step: usize) -> (r: Option<&Vec<String>>)
        ensures
            match r {
                Some(path) => path_of(self@.outcomes, step) == Some(text_views(path@)),
                None => path_of(self@.outcomes, step) is None,
            },
    {
        if step < self.outcomes.len() {
            assert(self@.outcomes[step as int] == self.outcomes@[step as int]@);
            match &self.outcomes[step] {
                Outcome::Path(path) => Some(path),
                _ => None,
            }
        } else {
            None
        }
    }

    fn control(&self, snapshot: usize, name: &str) -> (r: Option<String>)
        ensures
            match r {
                Some(control) => reference_in(self@.outcomes, snapshot, name@) == Some(control@),
                None => reference_in(self@.outcomes, snapshot, name@) is None,
            },
    {
        match self.reply(snapshot) {
            Some(reply) => reference_named(reply, name),
            None => None,
        }
    }

    fn requested(&self, step: &Step) -> (r: Option<Action>)
        ensures
            match r {
                Some(action) => request(step@, self@.outcomes) == Some(action@),
                None => request(step@, self@.outcomes) is None,
            },
    {
        match step {
            Step::Send(command, _) => Some(Action::Execute(command.to_json())),
            Step::Act(snapshot, name, action, _) => match self.control(*snapshot, name.as_str()) {
                Some(control) => Some(
                    Action::Execute(
                        reference_command(action.as_str(), control.as_str()).to_json(),
                    ),
                ),
                None => None,
            },
            Step::Await(_) => Some(Action::StartDeadline(AWAIT_LIMIT_MS)),
            Step::Find(snapshot, name, _) => match self.control(*snapshot, name.as_str()) {
                Some(control) => Some(Action::LookUp(control)),
                None => None,
            },
            Step::Sessions(_) => Some(Action::CountSessions),
            Step::Call(found, function, _) => match self.found(*found) {
                Some((frame, node)) => Some(
                    Action::Call(frame.to_owned(), node, function.as_str().to_owned()),
                ),
                None => None,
            },
            Step::PointAt(found, x, y, _) => match self.found(*found) {
                Some((frame, _)) => Some(Action::DescribeAt(frame.to_owned(), *x, *y)),
                None => None,
            },
            Step::Frames(_, _, _) => Some(Action::FrameTree),
            Step::HitNode(target, _) => match self.found(*target) {
                Some((_, node)) => Some(Action::HitCentre(node)),
                None => None,
            },
            Step::HitInside(target, _, _) => match self.found(*target) {
                Some((_, node)) => Some(Action::HitCentre(node)),
                None => None,
            },
            Step::Settle(_, _) => Some(Action::Look),
            Step::StopServers => Some(Action::StopServers),
        }
    }

    fn path_in(&self, reply: &Json, step: usize) -> (r: Option<Vec<String>>)
        ensures
            match r {
                Some(path) => path_to(reply@, self@.outcomes, step) == Some(text_views(path@)),
                None => path_to(reply@, self@.outcomes, step) is None,
            },
    {
        match (reply.get("frameTree"), self.found(step)) {
            (Some(tree), Some((frame, _))) => reference_frame_path(tree, frame),
            _ => None,
        }
    }

    fn saw_frames(
        &self,
        target: usize,
        overlay: Option<usize>,
        depth: usize,
        reply: &Json,
    ) -> (r: Verdict)
        ensures
            r@ == frames_seen(target, overlay, depth, self@.outcomes, reply@),
    {
        let path = match self.path_in(reply, target) {
            Some(path) => path,
            None => {
                return Verdict::Wrong;
            },
        };
        let ghost seen = text_views(path@);
        let apart = match overlay {
            Some(other) => match self.path_in(reply, other) {
                Some(other_path) => {
                    let ghost other_seen = text_views(other_path@);
                    let n: usize = path.len();
                    assert(seen.len() == n && other_seen.len() == other_path@.len());
                    if n != other_path.len() || n < 3 {
                        false
                    } else {
                        assert(forall|k: int| 0 <= k < n ==> seen[k] == #[trigger] path@[k]@);
                        assert(forall|k: int|
                            0 <= k < n ==> other_seen[k] == #[trigger] other_path@[k]@);
                        same_text(path[0].as_str(), other_path[0].as_str()) && same_text(
                            path[1].as_str(),
                            other_path[1].as_str(),
                        ) && !same_text(path[2].as_str(), other_path[2].as_str())
                    }
                },
                None => false,
            },
            None => true,
        };
        if path.len() == depth && apart {
            Verdict::Next(Outcome::Path(path))
        } else {
            Verdict::Wrong
        }
    }

    fn hit_control(&self, hit: &Json, overlay: usize) -> (r: bool)
        ensures
            r == hit_node(hit@, self@.outcomes, overlay),
    {
        match self.found(overlay) {
            Some((frame, node)) => {
                let same_node = match hit_of(hit) {
                    Some(n) => n == node,
                    None => false,
                };
                has_text(hit, "frameId", frame) && same_node
            },
            None => false,
        }
    }

    fn hit_frame(&self, hit: &Json, frames: usize) -> (r: bool)
        ensures
            r == hit_second_frame(hit@, self@.outcomes, frames),
    {
        match self.path(frames) {
            Some(path) => {
                assert(text_views(path@).len() == path@.len());
                if path.len() >= 2 {
                    assert(text_views(path@)[1] == path@[1]@);
                    has_text(hit, "frameId", path[1].as_str())
                } else {
                    false
                }
            },
            None => false,
        }
    }

    fn absorbed(&self, step: &Step, event: Event) -> (r: Verdict)
        ensures
            r@ == absorb(step@, self.phase, self@.outcomes, event@),
    {
        match (step, self.phase, event) {
            (Step::Send(_, expects), Phase::First, Event::Reply(reply)) => keep(expects, reply),
            (Step::Act(_, _, _, expects), Phase::First, Event::Reply(reply)) => keep(
                expects,
                reply,
            ),
            (Step::Call(_, _, expects), Phase::First, Event::Reply(reply)) => keep(expects, reply),
            (Step::Await(script), Phase::First, Event::Done) => Verdict::Again(
                Phase::Polling,
                Action::Execute(evaluation(script.as_str()).to_json()),
            ),
            (Step::Await(_), Phase::Polling, Event::Reply(reply)) => if !is_success(&reply)
                || reply.get("data").is_none() {
                Verdict::Wrong
            } else if result_is_true(&reply) {
                Verdict::Next(Outcome::Reply(reply))
            } else {
                Verdict::Again(Phase::Pausing, Action::Pause(AWAIT_PAUSE_MS))
            },
            (Step::Await(script), Phase::Pausing, Event::Done) => Verdict::Again(
                Phase::Polling,
                Action::Execute(evaluation(script.as_str()).to_json()),
            ),
            (Step::Find(_, _, facts), Phase::First, Event::Found(control)) => look_up(
                *facts,
                control,
            ),
            (Step::Sessions(count), Phase::First, Event::Sessions(counted)) => if *count
                == counted {
                Verdict::Next(Outcome::Nothing)
            } else {
                Verdict::Wrong
            },
            (Step::PointAt(_, _, _, id), Phase::First, Event::Reply(reply)) => if
            node_has_attribute(&reply, "id", id.as_str()) {
                Verdict::Next(Outcome::Reply(reply))
            } else {
                Verdict::Wrong
            },
            (
                Step::Frames(target, overlay, depth),
                Phase::First,
                Event::Reply(reply),
            ) => self.saw_frames(*target, *overlay, *depth, &reply),
            (Step::HitNode(_, overlay), Phase::First, Event::Reply(hit)) => if self.hit_control(
                &hit,
                *overlay,
            ) {
                Verdict::Next(Outcome::Reply(hit))
            } else {
                Verdict::Wrong
            },
            (Step::HitInside(_, frames, _), Phase::First, Event::Reply(hit)) => match hit_of(
                &hit,
            ) {
                Some(node) => if self.hit_frame(&hit, *frames) {
                    Verdict::Again(Phase::Describing(node), Action::DescribeHit(node))
                } else {
                    Verdict::Wrong
                },
                None => Verdict::Wrong,
            },
            (Step::HitInside(_, _, id), Phase::Describing(node), Event::Reply(reply)) => if
            node_has_attribute(&reply, "id", id.as_str()) {
                Verdict::Next(Outcome::Described(node, reply))
            } else {
                Verdict::Wrong
            },
            (Step::Settle(step, expects), Phase::First, Event::Done) => match self.reply(*step) {
                Some(reply) => if meets_all(expects, reply) {
                    Verdict::Next(Outcome::Nothing)
                } else {
                    Verdict::Wrong
                },
                None => Verdict::Wrong,
            },
            (Step::StopServers, Phase::First, Event::Done) => Verdict::Next(Outcome::Nothing),
            _ => Verdict::Wrong,
        }
    }

    fn go_on(&mut self) -> (r: Action)
        ensures
            final(self).steps == old(self).steps,
            (final(self)@, r@) == proceed(old(self)@.steps, old(self)@.outcomes),
    {
        self.phase = Phase::First;
        let at: usize = self.outcomes.len();
        assert(self@.outcomes.len() == at);
        if at >= self.steps.len() {
            self.status = Status::Finished;
            return Action::Finish;
        }
        assert(step_views(self.steps@)[at as int] == self.steps@[at as int]@);
        match self.requested(&self.steps[at]) {
            Some(action) => {
                self.status = Status::Running;
                action
            },
            None => {
                self.status = Status::Failed;
                Action::Fail
            },
        }
    }

    /// A run that is about to take its first step, and what that asks for.
    pub fn start(steps: Vec<Step>) -> (r: (Run, Action))
        ensures
            r.0.steps == steps,
            (r.0@, r.1@) == proceed(step_views(steps@), Seq::empty()),
    {
        let mut run = Run {
            steps,
            phase: Phase::First,
            outcomes: Vec::new(),
            status: Status::Running,
        };
        assert(run@.outcomes =~= Seq::empty());
        let action = run.go_on();
        (run, action)
    }

    /// Takes an answer, and says what to ask for next.
    pub fn on_event(&mut self, event: Event) -> (r: Action)
        ensures
            final(self).steps == old(self).steps,
            (final(self)@, r@) == advance(old(self)@, event@),
    {
        match self.status {
            Status::Finished => {
                return Action::Finish;
            },
            Status::Failed => {
                return Action::Fail;
            },
            Status::Running => {},
        }
        let at: usize = self.outcomes.len();
        assert(self@.outcomes.len() == at);
        if at >= self.steps.len() {
            return Action::Fail;
        }
        assert(step_views(self.steps@)[at as int] == self.steps@[at as int]@);
        match self.absorbed(&self.steps[at], event) {
            Verdict::Next(outcome) => {
                let ghost before = self@.outcomes;
                let ghost left = outcome@;
                self.outcomes.push(outcome);
                assert(self@.outcomes =~= before.push(left));
                self.go_on()
            },
            Verdict::Again(phase, action) => {
                self.phase = phase;
                action
            },
            Verdict::Wrong => {
                self.status = Status::Failed;
                Action::Fail
            },
        }
    }
}

fn keep(expects: &Vec<Expect>, reply: Json) -> (r: Verdict)
    ensures
        r@ == kept(expect_views(expects@), reply@),
{
    if meets_all(expects, &reply) {
        Verdict::Next(Outcome::Reply(reply))
    } else {
        Verdict::Wrong
    }
}

fn hit_of(hit: &Json) -> (r: Option<i64>)
    ensures
        r == node_hit(hit@),
{
    match hit.get("backendNodeId") {
        Some(value) => value.as_whole(),
        None => None,
    }
}

fn result_is_true(reply: &Json) -> (r: bool)
    ensures
        r == says_true(reply@),
{
    let ghost path = seq!["data"@, "result"@];
    assert(path.drop_first() =~= seq!["result"@]);
    assert(path.drop_first().drop_first() =~= Seq::<Seq<char>>::empty());
    reveal_with_fuel(value_at, 3);
    match reply.get("data") {
        Some(data) => match data.get("result") {
            Some(result) => match result.as_bool() {
                Some(b) => b,
                None => false,
            },
            None => false,
        },
        None => false,
    }
}

fn look_up(facts: Facts, control: Option<Control>) -> (r: Verdict)
    ensures
        r@ == looked_up(
            facts,
            match control {
                Some(found) => Some(found@),
                None => None,
            },
        ),
{
    match control {
        Some(found) => {
            let session_fine = match facts.own_session {
                Some(b) => found.own_session == b,
                None => true,
            };
            let selection_fine = match facts.selected {
                Some(b) => found.selected == b,
                None => true,
            };
            match (found.frame, found.node) {
                (Some(frame), Some(node)) => if session_fine && selection_fine {
                    Verdict::Next(Outcome::Found(frame, node))
                } else {
                    Verdict::Wrong
                },
                _ => Verdict::Wrong,
            }
        },
        None => Verdict::Wrong,
    }
}

/// Whether a click can have hit that node in the second of the frames that lead
/// to a control.
pub open spec fn hits_inside(outcomes: Seq<OutcomeView>, frames: usize, node: i64) -> bool {
    exists|hit: JsonView| #[trigger]
        hit_second_frame(hit, outcomes, frames) && node_hit(hit) == Some(node)
}

/// Whether a step's demands were met by what it left, given what the steps
/// before it had left.
pub open spec fn satisfied(
    step: StepView,
    before: Seq<OutcomeView>,
    outcome: OutcomeView,
) -> bool {
    match step {
        StepView::Send(_, expects) => outcome matches OutcomeView::Reply(reply) && all_met(
            expects,
            reply,
        ),
        StepView::Act(snapshot, name, _, expects) => reference_in(before, snapshot, name) is Some
            && (outcome matches OutcomeView::Reply(reply) && all_met(expects, reply)),
        StepView::Await(_) => outcome matches OutcomeView::Reply(reply) && succeeded(reply)
            && says_true(reply),
        StepView::Find(snapshot, name, facts) => reference_in(before, snapshot, name) is Some && (
        exists|control: ControlView| #[trigger]
            looked_up(facts, Some(control)) == VerdictView::Next(outcome)),
        StepView::Sessions(_) => outcome is Nothing,
        StepView::Call(found, _, expects) => found_of(before, found) is Some && (
        outcome matches OutcomeView::Reply(reply) && all_met(expects, reply)),
        StepView::PointAt(found, _, _, id) => found_of(before, found) is Some && (
        outcome matches OutcomeView::Reply(reply) && has_attribute(reply, "id"@, id)),
        StepView::Frames(target, overlay, depth) => exists|reply: JsonView| #[trigger]
            frames_seen(target, overlay, depth, before, reply) == VerdictView::Next(outcome),
        StepView::HitNode(target, overlay) => found_of(before, target) is Some && (
        outcome matches OutcomeView::Reply(hit) && hit_node(hit, before, overlay)),
        StepView::HitInside(target, frames, id) => found_of(before, target) is Some && (
        outcome matches OutcomeView::Described(node, reply) && hits_inside(before, frames, node)
            && has_attribute(reply, "id"@, id)),
        StepView::Settle(step, expects) => outcome is Nothing && (reply_of(
            before,
            step,
        ) matches Some(reply) && all_met(expects, reply)),
        StepView::StopServers => outcome is Nothing,
    }
}

/// Whether every step so far was satisfied.
pub open spec fn all_satisfied(steps: Seq<StepView>, outcomes: Seq<OutcomeView>) -> bool {
    &&& outcomes.len() <= steps.len()
    &&& forall|k: int|
        0 <= k < outcomes.len() ==> satisfied(
            #[trigger] steps[k],
            outcomes.take(k),
            outcomes[k],
        )
}

/// Whether a run that has a node described has hit it where it has to.
pub open spec fn describes_a_hit(run: RunView, node: i64) -> bool {
    match run.steps[run.outcomes.len() as int] {
        StepView::HitInside(_, frames, _) => hits_inside(run.outcomes, frames, node),
        _ => false,
    }
}

/// What can be said of a run wherever it stands.
pub open spec fn sound(run: RunView) -> bool {
    &&& all_satisfied(run.steps, run.outcomes)
    &&& run.status == Status::Finished ==> run.outcomes.len() == run.steps.len()
    &&& run.status == Status::Running ==> run.outcomes.len() < run.steps.len() && request(
        run.steps[run.outcomes.len() as int],
        run.outcomes,
    ) is Some
    &&& run.status == Status::Running ==> match run.phase {
        Phase::Describing(node) => describes_a_hit(run, node),
        _ => true,
    }
}

/// Where a series of answers leads a run from its start.
pub open spec fn played(steps: Seq<StepView>, events: Seq<EventView>) -> RunView
    decreases events.len(),
{
    if events.len() == 0 {
        proceed(steps, Seq::empty()).0
    } else {
        advance(played(steps, events.drop_last()), events.last()).0
    }
}

proof fn lemma_advance_is_sound(run: RunView, event: EventView)
    requires
        sound(run),
    ensures
        sound(advance(run, event).0),
{
    if run.status == Status::Running {
        let steps = run.steps;
        let at = run.outcomes.len() as int;
        match absorb(steps[at], run.phase, run.outcomes, event) {
            VerdictView::Next(outcome) => {
                let after = run.outcomes.push(outcome);
                assert(after.take(at) =~= run.outcomes);
                assert(satisfied(steps[at], run.outcomes, outcome));
                assert forall|k: int| 0 <= k < after.len() implies satisfied(
                    #[trigger] steps[k],
                    after.take(k),
                    after[k],
                ) by {
                    if k < at {
                        assert(after.take(k) =~= run.outcomes.take(k));
                    }
                }
            },
            _ => {},
        }
    }
}

/// Wherever a run stands, it has the steps that it began with, and every step
/// that it has left behind was satisfied.
pub proof fn steps_left_behind_were_satisfied(steps: Seq<StepView>, events: Seq<EventView>)
    ensures
        played(steps, events).steps == steps,
        sound(played(steps, events)),
    decreases events.len(),
{
    if events.len() > 0 {
        steps_left_behind_were_satisfied(steps, events.drop_last());
        lemma_advance_is_sound(played(steps, events.drop_last()), events.last());
    }
}

/// Whether the answer at `j` completed the step at `k`: the run stood at that
/// step then, and the answer gave what the step has left.
pub open spec fn completed_by(
    steps: Seq<StepView>,
    events: Seq<EventView>,
    k: int,
    j: int,
) -> bool {
    let run = played(steps, events.take(j));
    let left = played(steps, events).outcomes;
    &&& 0 <= j < events.len()
    &&& run.status == Status::Running
    &&& run.outcomes == left.take(k)
    &&& absorb(steps[k], run.phase, run.outcomes, events[j]) == VerdictView::Next(left[k])
}

/// Every step that a run has left behind was completed by an answer.
pub proof fn answers_complete_the_steps(steps: Seq<StepView>, events: Seq<EventView>, k: int)
    requires
        0 <= k < played(steps, events).outcomes.len(),
    ensures
        exists|j: int| completed_by(steps, events, k, j),
    decreases events.len(),
{
    if events.len() > 0 {
        let earlier = events.drop_last();
        let before = played(steps, earlier);
        let left = played(steps, events).outcomes;
        steps_left_behind_were_satisfied(steps, earlier);
        if k < before.outcomes.len() {
            answers_complete_the_steps(steps, earlier, k);
            let j = choose|j: int| completed_by(steps, earlier, k, j);
            assert(events.take(j) =~= earlier.take(j));
            assert(left.take(k) =~= before.outcomes.take(k));
            assert(completed_by(steps, events, k, j));
        } else {
            let j = earlier.len() as int;
            assert(events.take(j) =~= earlier);
            assert(left.take(k) =~= before.outcomes);
            assert(completed_by(steps, events, k, j));
        }
    }
}

/// A run that finishes has taken all its steps, and each was satisfied.
pub proof fn finished_runs_met_every_demand(steps: Seq<StepView>, events: Seq<EventView>)
    requires
        played(steps, events).status == Status::Finished,
    ensures
        played(steps, events).outcomes.len() == steps.len(),
        forall|k: int|
            0 <= k < steps.len() ==> satisfied(
                #[trigger] steps[k],
                played(steps, events).outcomes.take(k),
                played(steps, events).outcomes[k],
            ),
{
    steps_left_behind_were_satisfied(steps, events);
}

/// In a run that finishes, every reply that is looked at again says what it has
/// to.
pub proof fn finished_runs_settle_every_reply(steps: Seq<StepView>, events: Seq<EventView>, k: int)
    requires
        played(steps, events).status == Status::Finished,
        0 <= k < steps.len(),
        steps[k] is Settle,
    ensures
        reply_of(played(steps, events).outcomes, steps[k]->Settle_0) matches Some(reply)
            && all_met(steps[k]->Settle_1, reply),
{
    finished_runs_met_every_demand(steps, events);
    let outcomes = played(steps, events).outcomes;
    assert(satisfied(steps[k], outcomes.take(k), outcomes[k]));
}

/// In a run that finishes, so many frames as a step asks for had browser
/// sessions of their own when they were counted.
pub proof fn finished_runs_counted_the_sessions(
    steps: Seq<StepView>,
    events: Seq<EventView>,
    k: int,
)
    requires
        played(steps, events).status == Status::Finished,
        0 <= k < steps.len(),
        steps[k] is Sessions,
    ensures
        exists|j: int|
            completed_by(steps, events, k, j) && events[j] == EventView::Sessions(
                steps[k]->Sessions_0,
            ),
{
    finished_runs_met_every_demand(steps, events);
    answers_complete_the_steps(steps, events, k);
    let j = choose|j: int| completed_by(steps, events, k, j);
    assert(events[j] == EventView::Sessions(steps[k]->Sessions_0));
}

/// What a run asks for after a series of answers.
pub open spec fn asked_for(steps: Seq<StepView>, events: Seq<EventView>) -> ActionView {
    if events.len() == 0 {
        proceed(steps, Seq::empty()).1
    } else {
        advance(played(steps, events.drop_last()), events.last()).1
    }
}

/// Where a run has a node described, it has just been told of a click that hit
/// that node, in the frame where it has to, and asks for just that node.
pub proof fn what_is_described_was_hit(steps: Seq<StepView>, events: Seq<EventView>, node: i64)
    requires
        played(steps, events).status == Status::Running,
        played(steps, events).phase == Phase::Describing(node),
    ensures
        asked_for(steps, events) == ActionView::DescribeHit(node),
        events.len() > 0,
        ({
            let run = played(steps, events);
            let step = steps[run.outcomes.len() as int];
            &&& step is HitInside
            &&& events.last() matches EventView::Reply(hit) && node_hit(hit) == Some(node)
                && hit_second_frame(hit, run.outcomes, step->HitInside_1)
        }),
{
    steps_left_behind_were_satisfied(steps, events);
    if events.len() > 0 {
        steps_left_behind_were_satisfied(steps, events.drop_last());
    }
}

/// In a run that finishes, what a step found inside a frame is the node that a
/// click had hit: the hit came in, that node was asked for, and the next answer
/// described it.
pub proof fn finished_runs_described_what_was_hit(
    steps: Seq<StepView>,
    events: Seq<EventView>,
    k: int,
)
    requires
        played(steps, events).status == Status::Finished,
        0 <= k < steps.len(),
        steps[k] is HitInside,
    ensures
        exists|j: int|
            {
                &&& #[trigger] completed_by(steps, events, k, j)
                &&& j > 0
                &&& played(steps, events).outcomes[k] matches OutcomeView::Described(node, reply)
                    && asked_for(steps, events.take(j)) == ActionView::DescribeHit(node)
                    && events[j] == EventView::Reply(reply) && (
                events[j - 1] matches EventView::Reply(hit) && node_hit(hit) == Some(node)
                    && hit_second_frame(
                    hit,
                    played(steps, events).outcomes.take(k),
                    steps[k]->HitInside_1,
                ))
            },
{
    finished_runs_met_every_demand(steps, events);
    answers_complete_the_steps(steps, events, k);
    let j = choose|j: int| completed_by(steps, events, k, j);
    let run = played(steps, events.take(j));
    let left = played(steps, events).outcomes;
    assert(run.outcomes.len() == k);
    assert(left[k] is Described);
    let node = left[k]->Described_0;
    assert(run.phase == Phase::Describing(node));
    what_is_described_was_hit(steps, events.take(j), node);
    assert(events.take(j).last() == events[j - 1]);
}

/// A run fails at the first answer that is wrong.
pub proof fn a_wrong_answer_fails_the_run(run: RunView, event: EventView)
    requires
        run.status == Status::Running,
        run.outcomes.len() < run.steps.len(),
        absorb(run.steps[run.outcomes.len() as int], run.phase, run.outcomes, event) is Wrong,
    ensures
        advance(run, event).0.status == Status::Failed,
        advance(run, event).1 == ActionView::Fail,
{
}

/// A run that is over stays over, whatever comes in.
pub proof fn runs_that_are_over_stay_over(
    steps: Seq<StepView>,
    before: Seq<EventView>,
    event: EventView,
)
    requires
        played(steps, before).status != Status::Running,
    ensures
        played(steps, before.push(event)) == played(steps, before),
{
    assert(before.push(event).drop_last() =~= before);
}

/// What is waited for has a limit: once the deadline has passed, the run fails.
pub proof fn waiting_has_a_limit(run: RunView)
    requires
        run.status == Status::Running,
        run.outcomes.len() < run.steps.len(),
        run.steps[run.outcomes.len() as int] is Await,
    ensures
        advance(run, EventView::Deadline).0.status == Status::Failed,
{
}

/// Whether a step leaves a reply.
pub open spec fn leaves_reply(step: StepView) -> bool {
    step is Send || step is Act || step is Await || step is Call
}

/// Whether what a step speaks of is what an earlier step leaves.
pub open spec fn linked(steps: Seq<StepView>, k: int) -> bool {
    match steps[k] {
        StepView::Act(snapshot, _, _, _) => snapshot < k && steps[snapshot as int] is Send,
        StepView::Find(snapshot, _, _) => snapshot < k && steps[snapshot as int] is Send,
        StepView::Call(found, _, _) => found < k && steps[found as int] is Find,
        StepView::PointAt(found, _, _, _) => found < k && steps[found as int] is Find,
        StepView::Frames(target, overlay, depth) => target < k && steps[target as int] is Find && (
        overlay matches Some(other) ==> other < k && steps[other as int] is Find) && depth >= 3,
        StepView::HitNode(target, overlay) => target < k && steps[target as int] is Find && overlay
            < k && steps[overlay as int] is Find,
        StepView::HitInside(target, frames, _) => target < k && steps[target as int] is Find
            && frames < k && steps[frames as int] is Frames,
        StepView::Settle(step, _) => step < k && leaves_reply(steps[step as int]),
        _ => true,
    }
}

/// Whether every step speaks of what earlier steps leave.
pub open spec fn well_linked(steps: Seq<StepView>) -> bool {
    forall|k: int| 0 <= k < steps.len() ==> #[trigger] linked(steps, k)
}

/// In a scenario whose steps speak of what earlier ones leave, only a control
/// that a snapshot does not show can keep a step from being taken.
pub proof fn linked_steps_can_be_taken(steps: Seq<StepView>, outcomes: Seq<OutcomeView>)
    requires
        well_linked(steps),
        all_satisfied(steps, outcomes),
        outcomes.len() < steps.len(),
    ensures
        request(steps[outcomes.len() as int], outcomes) is Some || match steps[outcomes.len() as int] {
            StepView::Act(snapshot, name, _, _) => reply_of(
                outcomes,
                snapshot,
            ) matches Some(reply) && reference(reply, name) is None,
            StepView::Find(snapshot, name, _) => reply_of(
                outcomes,
                snapshot,
            ) matches Some(reply) && reference(reply, name) is None,
            _ => false,
        },
{
    assert(linked(steps, outcomes.len() as int));
    assert forall|k: int| 0 <= k < outcomes.len() implies (steps[k] is Find ==> (
    #[trigger] outcomes[k]) is Found) && (steps[k] is Send ==> outcomes[k] is Reply) by {
        assert(satisfied(steps[k], outcomes.take(k), outcomes[k]));
    }
}

/// A demand is met by what it names: success by a reply that says so; a refusal by
/// one that says the contrary, with an error that holds the text; a value by one
/// that is found along the path and says the same.
pub proof fn demands_are_met_by_what_they_name(
    reply: JsonView,
    text: Seq<char>,
    path: Seq<Seq<char>>,
    literal: LiteralView,
    error: Seq<char>,
    value: JsonView,
)
    ensures
        met(ExpectView::Success, reply) <==> holds(reply, "success"@, JsonView::Bool(true)),
        holds(reply, "error"@, JsonView::Text(error)) ==> (met(ExpectView::Refusal(text), reply)
            <==> holds(reply, "success"@, JsonView::Bool(false)) && occurs(error, text)),
        !holds(reply, "success"@, JsonView::Bool(false)) ==> !met(ExpectView::Refusal(text), reply),
        value_at(reply, path) == Some(value) ==> (met(ExpectView::At(path, literal), reply) <==> fits(
            literal,
            value,
        )),
        value_at(reply, path) is None ==> !met(ExpectView::At(path, literal), reply),
{
}

/// A command is sent as it is written down; something is done to the control that
/// the snapshot shows under its name; a control is looked up by the same reference;
/// and a step whose control is not shown asks for nothing.
pub proof fn steps_ask_for_what_they_name(
    outcomes: Seq<OutcomeView>,
    at: usize,
    reply: JsonView,
    command: LiteralView,
    expects: Seq<ExpectView>,
    name: Seq<char>,
    action: Seq<char>,
    facts: Facts,
    control: Seq<char>,
)
    ensures
        request(StepView::Send(command, expects), outcomes) == Some(
            ActionView::Execute(document(command)),
        ),
        at < outcomes.len() && outcomes[at as int] == OutcomeView::Reply(reply) && reference(
            reply,
            name,
        ) == Some(control) ==> {
            &&& request(StepView::Act(at, name, action, expects), outcomes) matches Some(
                ActionView::Execute(sent),
            ) && holds(sent, "action"@, JsonView::Text(action)) && holds(
                sent,
                "selector"@,
                JsonView::Text("@"@ + control),
            )
            &&& request(StepView::Find(at, name, facts), outcomes) == Some(
                ActionView::LookUp(control),
            )
        },
        at < outcomes.len() && outcomes[at as int] == OutcomeView::Reply(reply) && reference(
            reply,
            name,
        ) is None ==> request(StepView::Act(at, name, action, expects), outcomes) is None
            && request(StepView::Find(at, name, facts), outcomes) is None,
{
    lemma_act_document(action, control);
}

proof fn lemma_act_document(action: Seq<char>, control: Seq<char>)
    ensures
        holds(document(act_command(action, control)), "action"@, JsonView::Text(action)),
        holds(
            document(act_command(action, control)),
            "selector"@,
            JsonView::Text("@"@ + control),
        ),
{
    let fields = act_command(action, control)->Record_0;
    reveal_strlit("action");
    reveal_strlit("selector");
    assert("action"@.len() == 6 && "selector"@.len() == 8);
    assert(fields[0].0 == "action"@ && fields[1].0 == "selector"@);
    assert(crate::e2e::literal::names_field(fields, "action"@));
    assert(crate::e2e::literal::names_field(fields, "selector"@));
    crate::e2e::literal::records_write_their_fields_down(fields, "action"@, 0);
    crate::e2e::literal::records_write_their_fields_down(fields, "selector"@, 1);
}

proof fn lemma_evaluate_document(script: Seq<char>)
    ensures
        holds(document(evaluate_command(script)), "action"@, JsonView::Text("evaluate"@)),
        holds(document(evaluate_command(script)), "script"@, JsonView::Text(script)),
{
    let fields = evaluate_command(script)->Record_0;
    reveal_strlit("action");
    reveal_strlit("script");
    assert("action"@[0] == 'a' && "script"@[0] == 's');
    assert(fields[0].0 == "action"@ && fields[1].0 == "script"@);
    assert(crate::e2e::literal::names_field(fields, "action"@));
    assert(crate::e2e::literal::names_field(fields, "script"@));
    crate::e2e::literal::records_write_their_fields_down(fields, "action"@, 0);
    crate::e2e::literal::records_write_their_fields_down(fields, "script"@, 1);
}

/// What concerns a control that was found goes to its frame and its node.
pub proof fn found_controls_are_asked_for(
    outcomes: Seq<OutcomeView>,
    at: usize,
    frame: Seq<char>,
    node: i64,
    function: Seq<char>,
    expects: Seq<ExpectView>,
    x: i64,
    y: i64,
    text: Seq<char>,
    other: usize,
    number: u64,
)
    ensures
        at < outcomes.len() && outcomes[at as int] == OutcomeView::Found(frame, node) ==> {
            &&& request(StepView::Call(at, function, expects), outcomes) == Some(
                ActionView::Call(frame, node, function),
            )
            &&& request(StepView::PointAt(at, x, y, text), outcomes) == Some(
                ActionView::DescribeAt(frame, x, y),
            )
            &&& request(StepView::HitNode(at, other), outcomes) == Some(ActionView::HitCentre(node))
            &&& request(StepView::HitInside(at, other, text), outcomes) == Some(
                ActionView::HitCentre(node),
            )
        },
        request(StepView::Await(text), outcomes) == Some(ActionView::StartDeadline(5000)),
        request(StepView::Sessions(number), outcomes) == Some(ActionView::CountSessions),
        request(StepView::Frames(at, Some(other), at), outcomes) == Some(ActionView::FrameTree),
        request(StepView::Frames(at, None, at), outcomes) == Some(ActionView::FrameTree),
        request(StepView::Settle(at, expects), outcomes) == Some(ActionView::Look),
        request(StepView::StopServers, outcomes) == Some(ActionView::StopServers),
{
}

/// A reply that meets every demand is kept and completes its step, whatever else
/// it says; one that does not meet them all is wrong.
pub proof fn replies_that_meet_the_demands_are_kept(
    outcomes: Seq<OutcomeView>,
    reply: JsonView,
    command: LiteralView,
    expects: Seq<ExpectView>,
    at: usize,
    name: Seq<char>,
    text: Seq<char>,
)
    ensures
        ({
            let verdict = if forall|i: int|
                0 <= i < expects.len() ==> met(#[trigger] expects[i], reply) {
                VerdictView::Next(OutcomeView::Reply(reply))
            } else {
                VerdictView::Wrong
            };
            let event = EventView::Reply(reply);
            &&& absorb(StepView::Send(command, expects), Phase::First, outcomes, event) == verdict
            &&& absorb(StepView::Act(at, name, text, expects), Phase::First, outcomes, event)
                == verdict
            &&& absorb(StepView::Call(at, text, expects), Phase::First, outcomes, event) == verdict
        }),
{
}

/// A condition is looked at once its deadline runs: the script is evaluated; if the
/// reply says true, the step is done; if it works and brings data that does not, it
/// is evaluated again after 25 milliseconds; and any other reply is wrong.
pub proof fn conditions_are_looked_at_until_true(
    outcomes: Seq<OutcomeView>,
    script: Seq<char>,
    reply: JsonView,
    data: JsonView,
)
    ensures
        ({
            let step = StepView::Await(script);
            let look = absorb(step, Phase::First, outcomes, EventView::Done);
            let verdict = absorb(step, Phase::Polling, outcomes, EventView::Reply(reply));
            &&& look matches VerdictView::Again(phase, ActionView::Execute(sent)) && phase
                == Phase::Polling && holds(sent, "action"@, JsonView::Text("evaluate"@)) && holds(
                sent,
                "script"@,
                JsonView::Text(script),
            )
            &&& absorb(step, Phase::Pausing, outcomes, EventView::Done) == look
            &&& !holds(reply, "success"@, JsonView::Bool(true)) ==> verdict == VerdictView::Wrong
            &&& (forall|found: JsonView| !#[trigger] holds(reply, "data"@, found)) ==> verdict
                == VerdictView::Wrong
            &&& holds(reply, "success"@, JsonView::Bool(true)) && holds(reply, "data"@, data)
                ==> verdict == if holds(data, "result"@, JsonView::Bool(true)) {
                VerdictView::Next(OutcomeView::Reply(reply))
            } else {
                VerdictView::Again(Phase::Pausing, ActionView::Pause(25))
            }
        }),
{
    lemma_evaluate_document(script);
    let path = seq!["data"@, "result"@];
    assert(path.drop_first() =~= seq!["result"@]);
    assert(path.drop_first().drop_first() =~= Seq::<Seq<char>>::empty());
    reveal_with_fuel(value_at, 3);
    if let Some(found) = member(reply, "data"@) {
        assert(holds(reply, "data"@, found));
    }
}

/// A control that was looked up is found where it is a node of a frame and is as it
/// has to be; what does not matter is not looked at.
pub proof fn controls_are_found_as_they_have_to_be(
    facts: Facts,
    outcomes: Seq<OutcomeView>,
    at: usize,
    name: Seq<char>,
    control: ControlView,
)
    ensures
        ({
            let verdict = absorb(
                StepView::Find(at, name, facts),
                Phase::First,
                outcomes,
                EventView::Found(Some(control)),
            );
            let fine = (facts.own_session is None || facts.own_session == Some(
                control.own_session,
            )) && (facts.selected is None || facts.selected == Some(control.selected));
            &&& control.frame is Some && control.node is Some && fine ==> verdict
                == VerdictView::Next(OutcomeView::Found(control.frame->0, control.node->0))
            &&& control.frame is None || control.node is None || !fine ==> verdict
                == VerdictView::Wrong
            &&& absorb(
                StepView::Find(at, name, facts),
                Phase::First,
                outcomes,
                EventView::Found(None),
            ) == VerdictView::Wrong
        }),
{
}

/// As many sessions as asked for complete their step, and no other number does; a
/// point is taken by an element with the right identifier, and by no other.
pub proof fn counts_and_points_are_compared(
    outcomes: Seq<OutcomeView>,
    wanted: u64,
    counted: u64,
    at: usize,
    x: i64,
    y: i64,
    id: Seq<char>,
    reply: JsonView,
)
    ensures
        absorb(
            StepView::Sessions(wanted),
            Phase::First,
            outcomes,
            EventView::Sessions(counted),
        ) == if wanted == counted {
            VerdictView::Next(OutcomeView::Nothing)
        } else {
            VerdictView::Wrong
        },
        absorb(StepView::PointAt(at, x, y, id), Phase::First, outcomes, EventView::Reply(reply))
            == if has_attribute(reply, "id"@, id) {
            VerdictView::Next(OutcomeView::Reply(reply))
        } else {
            VerdictView::Wrong
        },
{
}

/// A control lies in its frames where the tree leads so many deep to it; with a
/// second one, where that lies as deep and their ways part after two frames.
pub proof fn frames_are_compared(
    outcomes: Seq<OutcomeView>,
    target: usize,
    overlay: usize,
    depth: usize,
    reply: JsonView,
    tree: JsonView,
    frame: Seq<char>,
    other: Seq<char>,
    node: i64,
    other_node: i64,
    path: Seq<Seq<char>>,
    other_path: Seq<Seq<char>>,
)
    requires
        holds(reply, "frameTree"@, tree),
        target < outcomes.len() && outcomes[target as int] == OutcomeView::Found(frame, node),
        overlay < outcomes.len() && outcomes[overlay as int] == OutcomeView::Found(
            other,
            other_node,
        ),
        frame_path(tree, frame) == Some(path),
        frame_path(tree, other) == Some(other_path),
    ensures
        absorb(
            StepView::Frames(target, None, depth),
            Phase::First,
            outcomes,
            EventView::Reply(reply),
        ) == if path.len() == depth {
            VerdictView::Next(OutcomeView::Path(path))
        } else {
            VerdictView::Wrong
        },
        absorb(
            StepView::Frames(target, Some(overlay), depth),
            Phase::First,
            outcomes,
            EventView::Reply(reply),
        ) == if path.len() == depth && other_path.len() == depth && depth >= 3 && path[0]
            == other_path[0] && path[1] == other_path[1] && path[2] != other_path[2] {
            VerdictView::Next(OutcomeView::Path(path))
        } else {
            VerdictView::Wrong
        },
{
}

/// A tree without a way to the control is wrong.
pub proof fn lost_frames_are_wrong(
    outcomes: Seq<OutcomeView>,
    target: usize,
    overlay: Option<usize>,
    depth: usize,
    reply: JsonView,
    frame: Seq<char>,
    node: i64,
)
    requires
        target < outcomes.len() && outcomes[target as int] == OutcomeView::Found(frame, node),
        forall|tree: JsonView| #[trigger]
            holds(reply, "frameTree"@, tree) ==> frame_path(tree, frame) is None,
    ensures
        absorb(
            StepView::Frames(target, overlay, depth),
            Phase::First,
            outcomes,
            EventView::Reply(reply),
        ) == VerdictView::Wrong,
{
    if let Some(tree) = member(reply, "frameTree"@) {
        assert(holds(reply, "frameTree"@, tree));
    }
}

/// A click hits another control where the browser names its frame and its node,
/// and only there.
pub proof fn hits_on_controls_are_compared(
    outcomes: Seq<OutcomeView>,
    target: usize,
    overlay: usize,
    frame: Seq<char>,
    node: i64,
    hit: JsonView,
)
    requires
        overlay < outcomes.len() && outcomes[overlay as int] == OutcomeView::Found(frame, node),
    ensures
        absorb(
            StepView::HitNode(target, overlay),
            Phase::First,
            outcomes,
            EventView::Reply(hit),
        ) == if holds(hit, "frameId"@, JsonView::Text(frame)) && whole_of(
            member(hit, "backendNodeId"@),
        ) == Some(node) {
            VerdictView::Next(OutcomeView::Reply(hit))
        } else {
            VerdictView::Wrong
        },
{
}

/// A click hits an element inside the second frame of a way where the browser
/// names that frame; the node that was hit is then described, and has to have the
/// right identifier.
pub proof fn hits_inside_frames_are_compared(
    outcomes: Seq<OutcomeView>,
    target: usize,
    frames: usize,
    id: Seq<char>,
    path: Seq<Seq<char>>,
    hit: JsonView,
    node: i64,
    described: i64,
    reply: JsonView,
)
    requires
        frames < outcomes.len() && outcomes[frames as int] == OutcomeView::Path(path),
        path.len() >= 2,
        whole_of(member(hit, "backendNodeId"@)) == Some(node),
    ensures
        absorb(
            StepView::HitInside(target, frames, id),
            Phase::First,
            outcomes,
            EventView::Reply(hit),
        ) == if holds(hit, "frameId"@, JsonView::Text(path[1])) {
            VerdictView::Again(Phase::Describing(node), ActionView::DescribeHit(node))
        } else {
            VerdictView::Wrong
        },
        absorb(
            StepView::HitInside(target, frames, id),
            Phase::Describing(described),
            outcomes,
            EventView::Reply(reply),
        ) == if has_attribute(reply, "id"@, id) {
            VerdictView::Next(OutcomeView::Described(described, reply))
        } else {
            VerdictView::Wrong
        },
{
}

/// An earlier reply settles a step where it meets the demands; servers that were
/// stopped complete theirs.
pub proof fn earlier_replies_settle_steps(
    outcomes: Seq<OutcomeView>,
    at: usize,
    reply: JsonView,
    expects: Seq<ExpectView>,
)
    requires
        at < outcomes.len() && outcomes[at as int] == OutcomeView::Reply(reply),
    ensures
        absorb(StepView::Settle(at, expects), Phase::First, outcomes, EventView::Done) == if forall|
            i: int,
        |
            0 <= i < expects.len() ==> met(#[trigger] expects[i], reply) {
            VerdictView::Next(OutcomeView::Nothing)
        } else {
            VerdictView::Wrong
        },
        absorb(StepView::StopServers, Phase::First, outcomes, EventView::Done) == VerdictView::Next(
            OutcomeView::Nothing,
        ),
{
}

/// A run that begins stands at its first step and asks for what that needs. Each
/// answer that completes a step adds what the step leaves and brings the run to the
/// next one; one that asks for more keeps it there; and the last step finishes it.
pub proof fn runs_go_step_by_step(run: RunView, event: EventView, outcome: OutcomeView)
    requires
        run.status == Status::Running,
        run.outcomes.len() < run.steps.len(),
    ensures
        ({
            let n = run.outcomes.len() as int;
            let verdict = absorb(run.steps[n], run.phase, run.outcomes, event);
            let (after, action) = advance(run, event);
            let left = run.outcomes.push(outcome);
            &&& after.steps == run.steps
            &&& verdict == VerdictView::Next(outcome) && n + 1 == run.steps.len() ==> after
                == (RunView {
                steps: run.steps,
                phase: Phase::First,
                outcomes: left,
                status: Status::Finished,
            }) && action == ActionView::Finish
            &&& verdict == VerdictView::Next(outcome) && n + 1 < run.steps.len() ==> match request(
                run.steps[n + 1],
                left,
            ) {
                Some(next) => after == (RunView {
                    steps: run.steps,
                    phase: Phase::First,
                    outcomes: left,
                    status: Status::Running,
                }) && action == next,
                None => after.status == Status::Failed && action == ActionView::Fail,
            }
            &&& verdict matches VerdictView::Again(phase, more) ==> after == (RunView {
                phase,
                ..run
            }) && action == more
        }),
{
}

/// A run without steps is finished from the start; any other asks for what its
/// first step needs, or fails where that cannot be had.
pub proof fn runs_begin_at_the_first_step(steps: Seq<StepView>)
    ensures
        ({
            let (run, action) = proceed(steps, Seq::empty());
            &&& run.steps == steps && run.outcomes == Seq::<OutcomeView>::empty()
            &&& steps.len() == 0 ==> run.status == Status::Finished && action == ActionView::Finish
            &&& steps.len() > 0 ==> match request(steps[0], Seq::empty()) {
                Some(first) => run.status == Status::Running && run.phase == Phase::First && action
                    == first,
                None => run.status == Status::Failed && action == ActionView::Fail,
            }
        }),
{
}

/// Whether an answer is of the kind that a step waits for.
pub open spec fn awaited_kind(step: StepView, phase: Phase, event: EventView) -> bool {
    match step {
        StepView::Find(_, _, _) => phase == Phase::First && event is Found,
        StepView::Sessions(_) => phase == Phase::First && event is Sessions,
        StepView::Settle(_, _) => phase == Phase::First && event is Done,
        StepView::StopServers => phase == Phase::First && event is Done,
        StepView::Await(_) => if phase == Phase::Polling {
            event is Reply
        } else {
            (phase == Phase::First || phase == Phase::Pausing) && event is Done
        },
        StepView::HitInside(_, _, _) => (phase == Phase::First || phase is Describing)
            && event is Reply,
        _ => phase == Phase::First && event is Reply,
    }
}

/// An answer of another kind is wrong, the deadline for every step.
pub proof fn answers_of_another_kind_are_wrong(
    step: StepView,
    phase: Phase,
    outcomes: Seq<OutcomeView>,
    event: EventView,
)
    requires
        !awaited_kind(step, phase, event),
    ensures
        absorb(step, phase, outcomes, event) == VerdictView::Wrong,
{
}

/// A step that speaks of what an earlier one has not left asks for nothing, and
/// cannot be completed.
pub proof fn missing_outcomes_cannot_be_used(
    outcomes: Seq<OutcomeView>,
    at: usize,
    name: Seq<char>,
    text: Seq<char>,
    expects: Seq<ExpectView>,
    facts: Facts,
    x: i64,
    other: usize,
    hit: JsonView,
)
    ensures
        at >= outcomes.len() || !(outcomes[at as int] is Reply) ==> {
            &&& request(StepView::Act(at, name, text, expects), outcomes) is None
            &&& request(StepView::Find(at, name, facts), outcomes) is None
            &&& absorb(StepView::Settle(at, expects), Phase::First, outcomes, EventView::Done)
                == VerdictView::Wrong
        },
        at >= outcomes.len() || !(outcomes[at as int] is Found) ==> {
            &&& request(StepView::Call(at, text, expects), outcomes) is None
            &&& request(StepView::PointAt(at, x, x, text), outcomes) is None
            &&& request(StepView::HitNode(at, other), outcomes) is None
            &&& request(StepView::HitInside(at, other, text), outcomes) is None
            &&& absorb(
                StepView::HitNode(other, at),
                Phase::First,
                outcomes,
                EventView::Reply(hit),
            ) == VerdictView::Wrong
        },
        at >= outcomes.len() || !(outcomes[at as int] is Path) ==> absorb(
            StepView::HitInside(other, at, text),
            Phase::First,
            outcomes,
            EventView::Reply(hit),
        ) == VerdictView::Wrong,
{
}

} // verus!
