//! Scenarios of clicks by reference: on controls inside frames and components,
//! covered and not.

use crate::e2e::commands::{
    bare, bare_command, command_with, datum, evaluate, evaluated, expect_datum, launch, launched,
    launches_are_headless, page_snapshot, pages_are_opened_and_looked_at,
    plain_commands_say_what_to_do, reference_relationship_page, send, sends, sent, success_only,
    with_one,
};
use crate::e2e::data_url::{data_url, fits_in_url};
use crate::e2e::literal::{
    document, fields_view, fits, items_view, names_field, objects_fit_their_records, push_field,
    records_write_their_fields_down, Literal, LiteralView,
};
use crate::e2e::pages::{
    builtin_controls, builtin_page, localhost, localhost_origin, Cover, ShadowMode, Topology,
};
use crate::e2e::replies::{failure, text_views, value_at};
use crate::e2e::scenario::{
    error_text, evaluate_command, evaluation, expect_views, finished_runs_settle_every_reply, met,
    played, reply_of, step_views, well_linked, EventView, Expect, ExpectView, Facts, Status, Step,
    StepView,
};
use crate::e2e::scripts::{
    CHECK_CONTROLS, CHECK_ORIGINS, CHECK_SHELL, CONTROL_STATE, COUNT_CLICKS, COUNT_HITS,
    COVER_BRANCH, COVER_SHELL, CUSTOM_OWNER, MEASURE_TARGET, REMOVE_OVERLAYS, SCROLL_FRAME,
    SCROLL_PAGE, UNCOVERED_BRANCH, UNCOVERED_SHELL,
};
use crate::json::JsonView;
use crate::protocol::{holds, succeeded};
use crate::scan::occurs;
use crate::text::decimal;
use vstd::prelude::*;

verus! {

/// No demand at all.
pub open spec fn no_demand() -> Seq<ExpectView> {
    Seq::empty()
}

fn expect_nothing() -> (r: Vec<Expect>)
    ensures
        expect_views(r@) == no_demand(),
{
    let expects: Vec<Expect> = Vec::new();
    assert(expect_views(expects@) =~= no_demand());
    expects
}

fn one_expectation(expect: Expect) -> (r: Vec<Expect>)
    ensures
        expect_views(r@) == seq![expect@],
{
    let ghost given = expect@;
    let mut expects: Vec<Expect> = Vec::new();
    expects.push(expect);
    assert(expect_views(expects@) =~= seq![given]);
    expects
}

fn expect_success() -> (r: Vec<Expect>)
    ensures
        expect_views(r@) == success_only(),
{
    let expects = one_expectation(Expect::Success);
    assert(expect_views(expects@) =~= success_only());
    expects
}

/// The demand that a click is refused because of what covers its target.
pub open spec fn covered_by(element: Seq<char>) -> Seq<ExpectView> {
    seq![ExpectView::Refusal("covered by <"@ + element + ">"@)]
}

fn expect_covered_by(element: &str) -> (r: Vec<Expect>)
    ensures
        expect_views(r@) == covered_by(element@),
{
    let text = "covered by <".to_owned().concat(element).concat(">");
    let expects = one_expectation(Expect::Refusal(text));
    assert(expect_views(expects@) =~= covered_by(element@));
    expects
}

/// The demand on the result of a script.
pub open spec fn result_is(value: LiteralView) -> Seq<ExpectView> {
    seq![ExpectView::At(datum("result"@), value)]
}

fn expect_result(value: Literal) -> (r: Vec<Expect>)
    ensures
        expect_views(r@) == result_is(value@),
{
    let ghost wanted = value@;
    let expects = one_expectation(expect_datum("result", value));
    assert(expect_views(expects@) =~= result_is(wanted));
    expects
}

/// The demand that a script works and gives a result.
pub open spec fn worked_with(value: LiteralView) -> Seq<ExpectView> {
    seq![ExpectView::Success, ExpectView::At(datum("result"@), value)]
}

fn expect_worked_with(value: Literal) -> (r: Vec<Expect>)
    ensures
        expect_views(r@) == worked_with(value@),
{
    let ghost wanted = value@;
    let mut expects: Vec<Expect> = Vec::new();
    expects.push(Expect::Success);
    expects.push(expect_datum("result", value));
    assert(expect_views(expects@) =~= worked_with(wanted));
    expects
}

/// A list of two.
pub open spec fn pair(a: LiteralView, b: LiteralView) -> LiteralView {
    LiteralView::List(seq![a, b])
}

fn pair_of(a: Literal, b: Literal) -> (r: Literal)
    ensures
        r@ == pair(a@, b@),
{
    let ghost given = seq![a@, b@];
    let mut items: Vec<Literal> = Vec::new();
    items.push(a);
    items.push(b);
    assert(items_view(items@) =~= given);
    Literal::list(items)
}

/// A list of three truth values.
pub open spec fn truths(a: bool, b: bool, c: bool) -> LiteralView {
    LiteralView::List(seq![LiteralView::Truth(a), LiteralView::Truth(b), LiteralView::Truth(c)])
}

fn truths_of(a: bool, b: bool, c: bool) -> (r: Literal)
    ensures
        r@ == truths(a, b, c),
{
    let mut items: Vec<Literal> = Vec::new();
    items.push(Literal::Truth(a));
    items.push(Literal::Truth(b));
    items.push(Literal::Truth(c));
    assert(items_view(items@) =~= truths(a, b, c)->List_0);
    Literal::list(items)
}

/// How often target and overlay were hit.
pub open spec fn hits(target: i64, overlay: i64) -> LiteralView {
    LiteralView::Record(
        seq![("target"@, LiteralView::Whole(target)), ("overlay"@, LiteralView::Whole(overlay))],
    )
}

fn hits_of(target: i64, overlay: i64) -> (r: Literal)
    ensures
        r@ == hits(target, overlay),
{
    let mut fields: Vec<(String, Literal)> = Vec::new();
    push_field(&mut fields, "target", Literal::Whole(target));
    push_field(&mut fields, "overlay", Literal::Whole(overlay));
    assert(fields_view(fields@) =~= hits(target, overlay)->Record_0);
    Literal::record(fields)
}

/// How often target, decoy and the page's own button were clicked.
pub open spec fn clicks(target: i64, decoy: i64, top: i64) -> LiteralView {
    LiteralView::Record(
        seq![
            ("target"@, LiteralView::Whole(target)),
            ("decoy"@, LiteralView::Whole(decoy)),
            ("top"@, LiteralView::Whole(top)),
        ],
    )
}

fn clicks_of(target: i64, decoy: i64, top: i64) -> (r: Literal)
    ensures
        r@ == clicks(target, decoy, top),
{
    let mut fields: Vec<(String, Literal)> = Vec::new();
    push_field(&mut fields, "target", Literal::Whole(target));
    push_field(&mut fields, "decoy", Literal::Whole(decoy));
    push_field(&mut fields, "top", Literal::Whole(top));
    assert(fields_view(fields@) =~= clicks(target, decoy, top)->Record_0);
    Literal::record(fields)
}

/// A script whose result is looked at later.
pub open spec fn asked(script: Seq<char>) -> StepView {
    StepView::Send(evaluate_command(script), no_demand())
}

fn ask(script: &str) -> (r: Step)
    ensures
        r@ == asked(script@),
{
    Step::Send(evaluation(script), expect_nothing())
}

/// A page by its address.
pub open spec fn visited(url: Seq<char>) -> StepView {
    sent(with_one("navigate"@, "url"@, LiteralView::Word(url)))
}

fn visit(url: &str) -> (r: Step)
    ensures
        r@ == visited(url@),
{
    send(command_with("navigate", "url", Literal::word(url)))
}

/// The frame that later commands go to, by its address.
pub open spec fn frame_chosen(url: Seq<char>) -> StepView {
    sent(with_one("frame"@, "url"@, LiteralView::Word(url)))
}

fn choose_frame(url: &str) -> (r: Step)
    ensures
        r@ == frame_chosen(url@),
{
    send(command_with("frame", "url", Literal::word(url)))
}

/// Nothing has to hold of a control but that it is there.
pub open spec fn no_facts() -> Facts {
    Facts { own_session: None, selected: None }
}

/// A control has to lie in the frame that commands go to.
pub open spec fn chosen() -> Facts {
    Facts { own_session: None, selected: Some(true) }
}

/// The last demands on a click that went through uncovered and was refused
/// covered: the one counted, the other did not, and the refusal names what
/// covers the target.
pub open spec fn blocker_settlement(
    uncovered: usize,
    before: usize,
    covered: usize,
    after: usize,
    element: Seq<char>,
) -> Seq<StepView> {
    seq![
        StepView::Settle(uncovered, success_only()),
        StepView::Settle(before, success_only()),
        StepView::Settle(after, success_only()),
        StepView::Settle(before, result_is(hits(1, 0))),
        StepView::Settle(covered, covered_by(element)),
        StepView::Settle(after, result_is(hits(1, 0))),
    ]
}

fn push_blocker_settlement(
    steps: &mut Vec<Step>,
    uncovered: usize,
    before: usize,
    covered: usize,
    after: usize,
    element: &str,
)
    ensures
        step_views(final(steps)@) == step_views(old(steps)@) + blocker_settlement(
            uncovered,
            before,
            covered,
            after,
            element@,
        ),
{
    steps.push(Step::Settle(uncovered, expect_success()));
    steps.push(Step::Settle(before, expect_success()));
    steps.push(Step::Settle(after, expect_success()));
    steps.push(Step::Settle(before, expect_result(hits_of(1, 0))));
    steps.push(Step::Settle(covered, expect_covered_by(element)));
    steps.push(Step::Settle(after, expect_result(hits_of(1, 0))));
    assert(step_views(steps@) =~= step_views(old(steps)@) + blocker_settlement(
        uncovered,
        before,
        covered,
        after,
        element@,
    ));
}

/// A target and what covers it in two branches of frames under one embedded
/// document: the hit belongs to the other branch, and the refusal has to name
/// the owner of that branch in the document that both share, while neither
/// counter moves.
pub open spec fn cross_branch_blocker(topology: Topology, cousins: bool, port: nat) -> Seq<StepView> {
    let same = topology == Topology::SameOrigin;
    seq![
        sent(launched()),
        visited(localhost(port) + "/"@),
        StepView::Await("!!(ready.target && ready.overlay)"@),
        evaluated("verify-origins"@, CHECK_ORIGINS@, truths(same, same || !cousins, same)),
        frame_chosen("/overlay-leaf"@),
        sent(bare("snapshot"@)),
        StepView::Find(5, "Cross branch overlay"@, no_facts()),
        frame_chosen("/target-leaf"@),
        sent(bare("snapshot"@)),
        StepView::Sessions(0),
        StepView::Find(8, "Cross branch target"@, chosen()),
        sent(bare("mainframe"@)),
        StepView::Frames(
            10,
            Some(6usize),
            if cousins {
                4
            } else {
                3
            },
        ),
        evaluated("uncovered-geometry"@, UNCOVERED_BRANCH@, LiteralView::Word("target-branch"@)),
        StepView::Act(8, "Cross branch target"@, "click"@, no_demand()),
        asked(COUNT_HITS@),
        evaluated("cover-target"@, COVER_BRANCH@, LiteralView::Word("covering-branch"@)),
        StepView::HitNode(10, 6),
        StepView::Act(8, "Cross branch target"@, "click"@, no_demand()),
        asked(COUNT_HITS@),
        sent(bare("close"@)),
        StepView::StopServers,
    ] + blocker_settlement(14, 15, 18, 19, "iframe#covering-branch"@)
}

/// The scenario of a target and what covers it in two branches of frames.
pub fn assert_reference_click_cross_branch_blocker(
    topology: Topology,
    cousins: bool,
    port: u16,
) -> (r: Vec<Step>)
    ensures
        step_views(r@) == cross_branch_blocker(topology, cousins, port as nat),
{
    let same = topology == Topology::SameOrigin;
    let url = localhost_origin(port).concat("/");
    let mut steps: Vec<Step> = Vec::new();
    steps.push(send(launch()));
    steps.push(visit(url.as_str()));
    steps.push(Step::Await("!!(ready.target && ready.overlay)".to_owned()));
    steps.push(
        evaluate("verify-origins", CHECK_ORIGINS, truths_of(same, same || !cousins, same)),
    );
    // A snapshot expands one level of frames only: each end is chosen first.
    steps.push(choose_frame("/overlay-leaf"));
    steps.push(send(bare_command("snapshot")));
    steps.push(
        Step::Find(
            5,
            "Cross branch overlay".to_owned(),
            Facts { own_session: None, selected: None },
        ),
    );
    steps.push(choose_frame("/target-leaf"));
    steps.push(send(bare_command("snapshot")));
    steps.push(Step::Sessions(0));
    steps.push(
        Step::Find(
            8,
            "Cross branch target".to_owned(),
            Facts { own_session: None, selected: Some(true) },
        ),
    );
    steps.push(send(bare_command("mainframe")));
    let depth: usize = if cousins {
        4
    } else {
        3
    };
    steps.push(Step::Frames(10, Some(6), depth));
    steps.push(
        evaluate("uncovered-geometry", UNCOVERED_BRANCH, Literal::word("target-branch")),
    );
    steps.push(
        Step::Act(8, "Cross branch target".to_owned(), "click".to_owned(), expect_nothing()),
    );
    steps.push(ask(COUNT_HITS));
    steps.push(evaluate("cover-target", COVER_BRANCH, Literal::word("covering-branch")));
    steps.push(Step::HitNode(10, 6));
    steps.push(
        Step::Act(8, "Cross branch target".to_owned(), "click".to_owned(), expect_nothing()),
    );
    steps.push(ask(COUNT_HITS));
    steps.push(send(bare_command("close")));
    steps.push(Step::StopServers);
    push_blocker_settlement(&mut steps, 14, 15, 18, 19, "iframe#covering-branch");
    assert(step_views(steps@) =~= cross_branch_blocker(topology, cousins, port as nat));
    steps
}

/// What has to be loaded before the scenario of a shared shell goes on.
pub open spec fn shell_loaded(frame_overlay: bool) -> Seq<char> {
    if frame_overlay {
        "!!(ready.target && (false || ready.overlay))"@
    } else {
        "!!(ready.target && (true || ready.overlay))"@
    }
}

/// The first steps with a shared shell: its pages are loaded, and of the
/// expected kind.
pub open spec fn shell_opening(
    topology: Topology,
    mode: ShadowMode,
    frame_overlay: bool,
    port: nat,
) -> Seq<StepView> {
    let same = topology == Topology::SameOrigin;
    seq![
        sent(launched()),
        visited(localhost(port) + "/"@),
        StepView::Await(shell_loaded(frame_overlay)),
        evaluated(
            "verify-shared-shell-topology"@,
            CHECK_SHELL@,
            truths(same, same, mode == ShadowMode::Open),
        ),
    ]
}

/// The steps that look up what covers the target, where that is a frame.
pub open spec fn shell_overlay() -> Seq<StepView> {
    seq![
        frame_chosen("/overlay-leaf"@),
        sent(bare("snapshot"@)),
        StepView::Find(5, "Shared shell chat"@, no_facts()),
    ]
}

/// What covers the target, as scripts know it.
pub open spec fn shell_cover(frame_overlay: bool) -> Seq<char> {
    if frame_overlay {
        "chat-frame"@
    } else {
        "consent"@
    }
}

/// What covers the target, as a refusal names it.
pub open spec fn shell_blocker(frame_overlay: bool) -> Seq<char> {
    if frame_overlay {
        "iframe#chat-frame"@
    } else {
        "cookie-dialog#consent"@
    }
}

/// A target in a frame inside a shell, covered inside the same shell by another
/// frame or by a dialog: the refusal has to name the covering element as it is
/// seen where the target's frame is, though the click would hit something
/// deeper inside, and neither counter moves.
pub open spec fn shadow_frame_blocker(
    topology: Topology,
    mode: ShadowMode,
    frame_overlay: bool,
    cousins: bool,
    port: nat,
) -> Seq<StepView> {
    let k: usize = if frame_overlay {
        7
    } else {
        4
    };
    shell_opening(topology, mode, frame_overlay, port) + (if frame_overlay {
        shell_overlay()
    } else {
        Seq::empty()
    }) + seq![
        frame_chosen("/target-leaf"@),
        sent(bare("snapshot"@)),
        StepView::Find((k + 1) as usize, "Shared shell target"@, chosen()),
        StepView::Sessions(0),
        sent(bare("mainframe"@)),
        StepView::Frames(
            (k + 2) as usize,
            if frame_overlay {
                Some(6usize)
            } else {
                None
            },
            if cousins {
                4
            } else {
                3
            },
        ),
        evaluated(
            "uncovered-shared-shell"@,
            UNCOVERED_SHELL@,
            LiteralView::Word("target-frame"@),
        ),
        StepView::Act((k + 1) as usize, "Shared shell target"@, "click"@, no_demand()),
        asked(COUNT_HITS@),
        evaluated(
            "cover-shared-shell-target"@,
            COVER_SHELL@,
            LiteralView::Word(shell_cover(frame_overlay)),
        ),
        if frame_overlay {
            StepView::HitNode((k + 2) as usize, 6)
        } else {
            StepView::HitInside((k + 2) as usize, (k + 5) as usize, "consent-panel"@)
        },
        StepView::Act((k + 1) as usize, "Shared shell target"@, "click"@, no_demand()),
        asked(COUNT_HITS@),
        sent(bare("close"@)),
        StepView::StopServers,
    ] + blocker_settlement(
        (k + 7) as usize,
        (k + 8) as usize,
        (k + 11) as usize,
        (k + 12) as usize,
        shell_blocker(frame_overlay),
    )
}

/// The scenario of a target in a frame inside a shell, covered inside the same
/// shell.
pub fn assert_reference_click_shadow_frame_blocker(
    topology: Topology,
    mode: ShadowMode,
    frame_overlay: bool,
    cousins: bool,
    port: u16,
) -> (r: Vec<Step>)
    ensures
        step_views(r@) == shadow_frame_blocker(
            topology,
            mode,
            frame_overlay,
            cousins,
            port as nat,
        ),
{
    let same = topology == Topology::SameOrigin;
    let url = localhost_origin(port).concat("/");
    let loaded = if frame_overlay {
        "!!(ready.target && (false || ready.overlay))"
    } else {
        "!!(ready.target && (true || ready.overlay))"
    };
    let mut steps: Vec<Step> = Vec::new();
    steps.push(send(launch()));
    steps.push(visit(url.as_str()));
    steps.push(Step::Await(loaded.to_owned()));
    steps.push(
        evaluate(
            "verify-shared-shell-topology",
            CHECK_SHELL,
            truths_of(same, same, mode == ShadowMode::Open),
        ),
    );
    assert(step_views(steps@) =~= shell_opening(topology, mode, frame_overlay, port as nat));
    if frame_overlay {
        steps.push(choose_frame("/overlay-leaf"));
        steps.push(send(bare_command("snapshot")));
        steps.push(
            Step::Find(
                5,
                "Shared shell chat".to_owned(),
                Facts { own_session: None, selected: None },
            ),
        );
    }
    let k: usize = if frame_overlay {
        7
    } else {
        4
    };
    let ghost start = step_views(steps@);
    assert(start =~= shell_opening(topology, mode, frame_overlay, port as nat) + (
    if frame_overlay {
        shell_overlay()
    } else {
        Seq::empty()
    }));
    steps.push(choose_frame("/target-leaf"));
    steps.push(send(bare_command("snapshot")));
    steps.push(
        Step::Find(
            k + 1,
            "Shared shell target".to_owned(),
            Facts { own_session: None, selected: Some(true) },
        ),
    );
    steps.push(Step::Sessions(0));
    steps.push(send(bare_command("mainframe")));
    let depth: usize = if cousins {
        4
    } else {
        3
    };
    let beside: Option<usize> = if frame_overlay {
        Some(6)
    } else {
        None
    };
    steps.push(Step::Frames(k + 2, beside, depth));
    steps.push(
        evaluate("uncovered-shared-shell", UNCOVERED_SHELL, Literal::word("target-frame")),
    );
    steps.push(
        Step::Act(k + 1, "Shared shell target".to_owned(), "click".to_owned(), expect_nothing()),
    );
    steps.push(ask(COUNT_HITS));
    let cover = if frame_overlay {
        "chat-frame"
    } else {
        "consent"
    };
    steps.push(evaluate("cover-shared-shell-target", COVER_SHELL, Literal::word(cover)));
    if frame_overlay {
        steps.push(Step::HitNode(k + 2, 6));
    } else {
        steps.push(Step::HitInside(k + 2, k + 5, "consent-panel".to_owned()));
    }
    steps.push(
        Step::Act(k + 1, "Shared shell target".to_owned(), "click".to_owned(), expect_nothing()),
    );
    steps.push(ask(COUNT_HITS));
    steps.push(send(bare_command("close")));
    steps.push(Step::StopServers);
    let blocker = if frame_overlay {
        "iframe#chat-frame"
    } else {
        "cookie-dialog#consent"
    };
    push_blocker_settlement(&mut steps, k + 7, k + 8, k + 11, k + 12, blocker);
    assert(step_views(steps@) =~= shadow_frame_blocker(
        topology,
        mode,
        frame_overlay,
        cousins,
        port as nat,
    ));
    steps
}

/// Frames inside other controls: their pages are loaded, and of the expected
/// kind.
pub open spec fn frame_relationships(topology: Topology, port: nat) -> Seq<StepView> {
    seq![
        sent(launched()),
        visited(localhost(port) + "/"@),
        StepView::Await("window.ready.size === 4"@),
        sent(bare("snapshot"@)),
        StepView::Sessions(
            if topology == Topology::Oopif {
                4
            } else {
                0
            },
        ),
        evaluated("custom-owner"@, CUSTOM_OWNER@, LiteralView::Word("FancyFrame"@)),
    ]
}

/// The scenario that prepares frames inside other controls; its snapshot is
/// what the fourth step leaves.
pub fn frame_relationship_fixture(topology: Topology, port: u16) -> (r: Vec<Step>)
    ensures
        step_views(r@) == frame_relationships(topology, port as nat),
{
    let url = localhost_origin(port).concat("/");
    let mut steps: Vec<Step> = Vec::new();
    steps.push(send(launch()));
    steps.push(visit(url.as_str()));
    steps.push(Step::Await("window.ready.size === 4".to_owned()));
    steps.push(send(bare_command("snapshot")));
    let sessions: u64 = if topology == Topology::Oopif {
        4
    } else {
        0
    };
    steps.push(Step::Sessions(sessions));
    steps.push(evaluate("custom-owner", CUSTOM_OWNER, Literal::word("FancyFrame")));
    assert(step_views(steps@) =~= frame_relationships(topology, port as nat));
    steps
}

/// What covers the pages of a click, as a refusal names it.
pub open spec fn cover_element(cover: Cover) -> Seq<char> {
    match cover {
        Cover::Parent => "div#parent-overlay"@,
        _ => "div#child-overlay"@,
    }
}

fn element_of_cover(cover: Cover) -> (r: &'static str)
    ensures
        r@ == cover_element(cover),
{
    match cover {
        Cover::Parent => "div#parent-overlay",
        _ => "div#child-overlay",
    }
}

/// The command that makes the window that large, at twice the scale.
pub open spec fn scaled_viewport() -> LiteralView {
    LiteralView::Record(
        seq![
            ("action"@, LiteralView::Word("viewport"@)),
            ("width"@, LiteralView::Whole(1280)),
            ("height"@, LiteralView::Whole(720)),
            ("deviceScaleFactor"@, LiteralView::Whole(2)),
        ],
    )
}

fn viewport_command() -> (r: Literal)
    ensures
        r@ == scaled_viewport(),
{
    let mut fields: Vec<(String, Literal)> = Vec::new();
    push_field(&mut fields, "action", Literal::word("viewport"));
    push_field(&mut fields, "width", Literal::Whole(1280));
    push_field(&mut fields, "height", Literal::Whole(720));
    push_field(&mut fields, "deviceScaleFactor", Literal::Whole(2));
    assert(fields_view(fields@) =~= scaled_viewport()->Record_0);
    Literal::record(fields)
}

/// Up to the first snapshot of a click inside a frame.
pub open spec fn click_opening(scaled: bool, port: nat) -> Seq<StepView> {
    seq![sent(launched())] + (if scaled {
        seq![sent(scaled_viewport())]
    } else {
        Seq::empty()
    }) + seq![
        visited(localhost(port) + "/"@),
        StepView::Await("window.childReady"@),
        sent(bare("snapshot"@)),
    ]
}

fn click_opening_steps(scaled: bool, port: u16) -> (r: Vec<Step>)
    ensures
        step_views(r@) == click_opening(scaled, port as nat),
{
    let url = localhost_origin(port).concat("/");
    let mut steps: Vec<Step> = Vec::new();
    steps.push(send(launch()));
    if scaled {
        steps.push(send(viewport_command()));
    }
    steps.push(visit(url.as_str()));
    steps.push(Step::Await("window.childReady".to_owned()));
    steps.push(send(bare_command("snapshot")));
    assert(step_views(steps@) =~= click_opening(scaled, port as nat));
    steps
}

/// From the click on the page's own button to the second snapshot; the first
/// one is what step `snapshot` leaves.
pub open spec fn click_on_top(snapshot: usize, cover: Cover, scaled: bool, select_frame: bool) -> Seq<
    StepView,
> {
    seq![
        StepView::Act(
            snapshot,
            "Top target"@,
            "click"@,
            if cover == Cover::Parent {
                covered_by("div#parent-overlay"@)
            } else {
                success_only()
            },
        ),
    ] + (if scaled {
        seq![
            evaluated(
                "scroll"@,
                SCROLL_PAGE@,
                pair(LiteralView::Whole(60), LiteralView::Whole(2)),
            ),
        ]
    } else {
        Seq::empty()
    }) + (if select_frame {
        seq![StepView::Act(snapshot, "Click frame"@, "frame"@, success_only())]
    } else {
        Seq::empty()
    }) + seq![sent(bare("snapshot"@))]
}

fn push_click_on_top(
    steps: &mut Vec<Step>,
    snapshot: usize,
    cover: Cover,
    scaled: bool,
    select_frame: bool,
)
    ensures
        step_views(final(steps)@) == step_views(old(steps)@) + click_on_top(
            snapshot,
            cover,
            scaled,
            select_frame,
        ),
{
    let expects = if cover == Cover::Parent {
        expect_covered_by("div#parent-overlay")
    } else {
        expect_success()
    };
    steps.push(Step::Act(snapshot, "Top target".to_owned(), "click".to_owned(), expects));
    if scaled {
        steps.push(
            evaluate("scroll", SCROLL_PAGE, pair_of(Literal::Whole(60), Literal::Whole(2))),
        );
    }
    if select_frame {
        steps.push(
            Step::Act(snapshot, "Click frame".to_owned(), "frame".to_owned(), expect_success()),
        );
    }
    steps.push(send(bare_command("snapshot")));
    assert(step_views(steps@) =~= step_views(old(steps)@) + click_on_top(
        snapshot,
        cover,
        scaled,
        select_frame,
    ));
}

/// Where the value that a function returned is found in a reply.
pub open spec fn returned() -> Seq<Seq<char>> {
    seq!["result"@, "value"@]
}

/// The demand that target and decoy are apart, and that the frame can reach the
/// page around it, or not.
pub open spec fn measured(reachable: bool) -> Seq<ExpectView> {
    seq![
        ExpectView::At(returned().push("disjoint"@), LiteralView::Truth(true)),
        ExpectView::At(returned().push("parentAccessible"@), LiteralView::Truth(reachable)),
    ]
}

fn expect_measured(reachable: bool) -> (r: Vec<Expect>)
    ensures
        expect_views(r@) == measured(reachable),
{
    let mut apart: Vec<String> = Vec::new();
    apart.push("result".to_owned());
    apart.push("value".to_owned());
    apart.push("disjoint".to_owned());
    assert(text_views(apart@) =~= returned().push("disjoint"@));
    let mut reach: Vec<String> = Vec::new();
    reach.push("result".to_owned());
    reach.push("value".to_owned());
    reach.push("parentAccessible".to_owned());
    assert(text_views(reach@) =~= returned().push("parentAccessible"@));
    let mut expects: Vec<Expect> = Vec::new();
    expects.push(Expect::At(apart, Literal::Truth(true)));
    expects.push(Expect::At(reach, Literal::Truth(reachable)));
    assert(expect_views(expects@) =~= measured(reachable));
    expects
}

/// What has to hold of the target inside the frame.
pub open spec fn target_facts(topology: Topology, select_frame: bool) -> Facts {
    Facts {
        own_session: Some(topology == Topology::Oopif),
        selected: if select_frame {
            Some(true)
        } else {
            None
        },
    }
}

/// The steps that make sure that the click is a fair one: target and decoy are
/// apart, and where the frame is scrolled and of another process, to leave the
/// scrolling out would hit the decoy. The second snapshot is what step
/// `snapshot` leaves.
pub open spec fn click_geometry(
    snapshot: usize,
    topology: Topology,
    scaled: bool,
    select_frame: bool,
) -> Seq<StepView> {
    let found = (snapshot + 1) as usize;
    seq![StepView::Find(snapshot, "Frame target"@, target_facts(topology, select_frame))] + (
    if topology == Topology::Oopif && scaled {
        seq![
            StepView::Call(
                found,
                SCROLL_FRAME@,
                seq![
                    ExpectView::At(
                        returned(),
                        pair(LiteralView::Whole(200), LiteralView::Truth(true)),
                    ),
                ],
            ),
            StepView::PointAt(found, 70, 215, "decoy"@),
        ]
    } else {
        Seq::empty()
    }) + seq![
        StepView::Call(found, MEASURE_TARGET@, measured(topology == Topology::SameOrigin)),
    ]
}

fn push_click_geometry(
    steps: &mut Vec<Step>,
    snapshot: usize,
    topology: Topology,
    scaled: bool,
    select_frame: bool,
)
    requires
        snapshot < usize::MAX,
    ensures
        step_views(final(steps)@) == step_views(old(steps)@) + click_geometry(
            snapshot,
            topology,
            scaled,
            select_frame,
        ),
{
    let selected: Option<bool> = if select_frame {
        Some(true)
    } else {
        None
    };
    steps.push(
        Step::Find(
            snapshot,
            "Frame target".to_owned(),
            Facts { own_session: Some(topology == Topology::Oopif), selected },
        ),
    );
    if topology == Topology::Oopif && scaled {
        let mut path: Vec<String> = Vec::new();
        path.push("result".to_owned());
        path.push("value".to_owned());
        assert(text_views(path@) =~= returned());
        let scrolled = one_expectation(
            Expect::At(path, pair_of(Literal::Whole(200), Literal::Truth(true))),
        );
        steps.push(Step::Call(snapshot + 1, SCROLL_FRAME.to_owned(), scrolled));
        steps.push(Step::PointAt(snapshot + 1, 70, 215, "decoy".to_owned()));
    }
    steps.push(
        Step::Call(
            snapshot + 1,
            MEASURE_TARGET.to_owned(),
            expect_measured(topology == Topology::SameOrigin),
        ),
    );
    assert(step_views(steps@) =~= step_views(old(steps)@) + click_geometry(
        snapshot,
        topology,
        scaled,
        select_frame,
    ));
}

/// The click on the target inside the frame, and the last demands: uncovered it
/// counts, and nothing else does; covered it is refused and does not count. The
/// step of the click is number `at`.
pub open spec fn click_in_frame(snapshot: usize, at: usize, cover: Cover) -> Seq<StepView> {
    seq![
        StepView::Act(snapshot, "Frame target"@, "click"@, no_demand()),
        StepView::Send(evaluate_command(COUNT_CLICKS@), success_only()),
        sent(bare("close"@)),
        StepView::StopServers,
        StepView::Settle(
            at,
            if cover == Cover::Nothing {
                success_only()
            } else {
                covered_by(cover_element(cover))
            },
        ),
        StepView::Settle(
            (at + 1) as usize,
            result_is(
                match cover {
                    Cover::Nothing => clicks(1, 0, 1),
                    Cover::Child => clicks(0, 0, 1),
                    Cover::Parent => clicks(0, 0, 0),
                },
            ),
        ),
    ]
}

fn push_click_in_frame(steps: &mut Vec<Step>, snapshot: usize, at: usize, cover: Cover)
    requires
        at < usize::MAX,
    ensures
        step_views(final(steps)@) == step_views(old(steps)@) + click_in_frame(snapshot, at, cover),
{
    steps.push(
        Step::Act(snapshot, "Frame target".to_owned(), "click".to_owned(), expect_nothing()),
    );
    steps.push(Step::Send(evaluation(COUNT_CLICKS), expect_success()));
    steps.push(send(bare_command("close")));
    steps.push(Step::StopServers);
    let verdict = if cover == Cover::Nothing {
        expect_success()
    } else {
        expect_covered_by(element_of_cover(cover))
    };
    steps.push(Step::Settle(at, verdict));
    let counted = match cover {
        Cover::Nothing => clicks_of(1, 0, 1),
        Cover::Child => clicks_of(0, 0, 1),
        Cover::Parent => clicks_of(0, 0, 0),
    };
    steps.push(Step::Settle(at + 1, expect_result(counted)));
    assert(step_views(steps@) =~= step_views(old(steps)@) + click_in_frame(snapshot, at, cover));
}

/// A click by reference on a target inside a frame.
pub open spec fn iframe_click(
    topology: Topology,
    select_frame: bool,
    cover: Cover,
    scaled: bool,
    port: nat,
) -> Seq<StepView> {
    let opening = click_opening(scaled, port);
    let top = opening + click_on_top((opening.len() - 1) as usize, cover, scaled, select_frame);
    let snapshot = (top.len() - 1) as usize;
    let geometry = top + click_geometry(snapshot, topology, scaled, select_frame);
    geometry + click_in_frame(snapshot, geometry.len() as usize, cover)
}

/// The scenario of a click by reference on a target inside a frame. The page is
/// served on `port`.
pub fn assert_iframe_reference_click(
    topology: Topology,
    select_frame: bool,
    cover: Cover,
    scaled: bool,
    port: u16,
) -> (r: Vec<Step>)
    ensures
        step_views(r@) == iframe_click(topology, select_frame, cover, scaled, port as nat),
{
    let mut steps = click_opening_steps(scaled, port);
    let ghost opening = step_views(steps@);
    assert(opening.len() == steps@.len());
    let first: usize = steps.len() - 1;
    push_click_on_top(&mut steps, first, cover, scaled, select_frame);
    let ghost top = step_views(steps@);
    assert(top.len() == steps@.len());
    let second: usize = steps.len() - 1;
    push_click_geometry(&mut steps, second, topology, scaled, select_frame);
    let ghost geometry = step_views(steps@);
    assert(geometry.len() == steps@.len());
    let at: usize = steps.len();
    push_click_in_frame(&mut steps, second, at, cover);
    steps
}

/// The name of a control inside a component, in the shell of that mode.
pub open spec fn toggle_name(mode: Seq<char>, kind: Seq<char>) -> Seq<char> {
    mode + " "@ + kind + " toggle"@
}

fn toggle(mode: &str, kind: &str) -> (r: String)
    ensures
        r@ == toggle_name(mode@, kind@),
{
    mode.to_owned().concat(" ").concat(kind).concat(" toggle")
}

/// How often each target and what covers it were hit, with nothing checked.
pub open spec fn untouched(target: i64) -> LiteralView {
    LiteralView::Record(
        seq![
            ("hits"@, pair(hits(target, 0), hits(target, 0))),
            ("checked"@, pair(LiteralView::Truth(false), LiteralView::Truth(false))),
        ],
    )
}

fn untouched_of(target: i64) -> (r: Literal)
    ensures
        r@ == untouched(target),
{
    let mut fields: Vec<(String, Literal)> = Vec::new();
    push_field(&mut fields, "hits", pair_of(hits_of(target, 0), hits_of(target, 0)));
    push_field(
        &mut fields,
        "checked",
        pair_of(Literal::Truth(false), Literal::Truth(false)),
    );
    assert(fields_view(fields@) =~= untouched(target)->Record_0);
    Literal::record(fields)
}

/// A control that is checked and unchecked again, with a look at it each time.
pub open spec fn toggled(mode: Seq<char>, kind: Seq<char>, look: Seq<char>) -> Seq<StepView> {
    seq![
        StepView::Act(2, toggle_name(mode, kind), "check"@, no_demand()),
        asked(look),
        StepView::Act(2, toggle_name(mode, kind), "uncheck"@, no_demand()),
        asked(look),
    ]
}

fn push_toggled(steps: &mut Vec<Step>, mode: &str, kind: &str, look: &str)
    ensures
        step_views(final(steps)@) == step_views(old(steps)@) + toggled(mode@, kind@, look@),
{
    steps.push(Step::Act(2, toggle(mode, kind), "check".to_owned(), expect_nothing()));
    steps.push(ask(look));
    steps.push(Step::Act(2, toggle(mode, kind), "uncheck".to_owned(), expect_nothing()));
    steps.push(ask(look));
    assert(step_views(steps@) =~= step_views(old(steps)@) + toggled(mode@, kind@, look@));
}

/// Both controls, covered: nothing of it counts.
pub open spec fn covered_toggles(kind: Seq<char>) -> Seq<StepView> {
    seq![
        evaluated("builtin-component-geometry"@, CHECK_CONTROLS@, LiteralView::Truth(true)),
        StepView::Act(2, toggle_name("open"@, kind), "check"@, no_demand()),
        StepView::Act(2, toggle_name("closed"@, kind), "check"@, no_demand()),
        asked(CONTROL_STATE@),
        evaluated(
            "remove-builtin-component-overlays"@,
            REMOVE_OVERLAYS@,
            LiteralView::Truth(true),
        ),
    ]
}

/// The last demands on controls inside components.
pub open spec fn toggle_settlement() -> Seq<StepView> {
    seq![
        StepView::Settle(4, covered_by("cookie-dialog#builtin-dialog-0"@)),
        StepView::Settle(5, covered_by("cookie-dialog#builtin-dialog-1"@)),
        StepView::Settle(6, worked_with(untouched(0))),
        StepView::Settle(8, success_only()),
        StepView::Settle(9, worked_with(LiteralView::Truth(true))),
        StepView::Settle(10, success_only()),
        StepView::Settle(11, worked_with(LiteralView::Truth(false))),
        StepView::Settle(12, success_only()),
        StepView::Settle(13, worked_with(LiteralView::Truth(true))),
        StepView::Settle(14, success_only()),
        StepView::Settle(15, worked_with(LiteralView::Truth(false))),
        StepView::Settle(16, worked_with(untouched(2))),
    ]
}

/// Controls inside built-in elements inside components: the visual that belongs
/// to the component does not keep a control from being checked, a dialog that
/// does not belong to it does.
pub open spec fn builtin_visuals(kind: Seq<char>, url: Seq<char>) -> Seq<StepView> {
    page_snapshot(url) + covered_toggles(kind) + toggled(
        "open"@,
        kind,
        "window.controls[0].checked"@,
    ) + toggled("closed"@, kind, "window.controls[1].checked"@) + seq![
        asked(CONTROL_STATE@),
        sent(bare("close"@)),
    ] + toggle_settlement()
}

/// The scenario of controls inside built-in elements inside components, on the
/// page with the controls of that kind.
pub fn assert_reference_click_builtin_component_visuals(kind: &str) -> (r: Vec<Step>)
    requires
        fits_in_url(builtin_controls(kind@)),
    ensures
        step_views(r@) == builtin_visuals(kind@, data_url(builtin_controls(kind@))),
{
    let page = builtin_page(kind);
    let ghost url = data_url(page@);
    let mut steps = reference_relationship_page(page.as_str());
    steps.push(
        evaluate("builtin-component-geometry", CHECK_CONTROLS, Literal::Truth(true)),
    );
    steps.push(Step::Act(2, toggle("open", kind), "check".to_owned(), expect_nothing()));
    steps.push(Step::Act(2, toggle("closed", kind), "check".to_owned(), expect_nothing()));
    steps.push(ask(CONTROL_STATE));
    steps.push(
        evaluate("remove-builtin-component-overlays", REMOVE_OVERLAYS, Literal::Truth(true)),
    );
    assert(step_views(steps@) =~= page_snapshot(url) + covered_toggles(kind@));
    push_toggled(&mut steps, "open", kind, "window.controls[0].checked");
    push_toggled(&mut steps, "closed", kind, "window.controls[1].checked");
    let ghost before = step_views(steps@);
    steps.push(ask(CONTROL_STATE));
    steps.push(send(bare_command("close")));
    assert(step_views(steps@) =~= before + seq![asked(CONTROL_STATE@), sent(bare("close"@))]);
    let ghost before = step_views(steps@);
    steps.push(Step::Settle(4, expect_covered_by("cookie-dialog#builtin-dialog-0")));
    steps.push(Step::Settle(5, expect_covered_by("cookie-dialog#builtin-dialog-1")));
    steps.push(Step::Settle(6, expect_worked_with(untouched_of(0))));
    steps.push(Step::Settle(8, expect_success()));
    steps.push(Step::Settle(9, expect_worked_with(Literal::Truth(true))));
    steps.push(Step::Settle(10, expect_success()));
    steps.push(Step::Settle(11, expect_worked_with(Literal::Truth(false))));
    steps.push(Step::Settle(12, expect_success()));
    steps.push(Step::Settle(13, expect_worked_with(Literal::Truth(true))));
    steps.push(Step::Settle(14, expect_success()));
    steps.push(Step::Settle(15, expect_worked_with(Literal::Truth(false))));
    steps.push(Step::Settle(16, expect_worked_with(untouched_of(2))));
    assert(step_views(steps@) =~= before + toggle_settlement());
    steps
}

/// The steps of the scenario with two branches of frames speak of what earlier
/// ones leave.
pub proof fn cross_branch_blocker_is_well_linked(topology: Topology, cousins: bool, port: nat)
    ensures
        well_linked(cross_branch_blocker(topology, cousins, port)),
{
}

/// The steps of the scenario with frames inside other controls speak of what
/// earlier ones leave.
pub proof fn frame_relationships_are_well_linked(topology: Topology, port: nat)
    ensures
        well_linked(frame_relationships(topology, port)),
{
}

/// The steps of the scenario with a shared shell speak of what earlier ones
/// leave.
pub proof fn shadow_frame_blocker_is_well_linked(
    topology: Topology,
    mode: ShadowMode,
    frame_overlay: bool,
    cousins: bool,
    port: nat,
)
    ensures
        well_linked(shadow_frame_blocker(topology, mode, frame_overlay, cousins, port)),
{
}

/// The steps of the scenario with built-in elements speak of what earlier ones
/// leave.
pub proof fn builtin_visuals_are_well_linked(kind: Seq<char>, url: Seq<char>)
    ensures
        well_linked(builtin_visuals(kind, url)),
{
}

/// The steps of the scenario with a click inside a frame speak of what earlier
/// ones leave.
pub proof fn iframe_click_is_well_linked(
    topology: Topology,
    select_frame: bool,
    cover: Cover,
    scaled: bool,
    port: nat,
)
    ensures
        well_linked(iframe_click(topology, select_frame, cover, scaled, port)),
{
}

/// Whether a reply refuses a click because of what covers its target.
pub open spec fn refuses_for(reply: Option<JsonView>, element: Seq<char>) -> bool {
    reply matches Some(found) && failure(found) && occurs(
        error_text(found),
        "covered by <"@ + element + ">"@,
    )
}

/// Whether a reply brings that result.
pub open spec fn brings(reply: Option<JsonView>, result: LiteralView) -> bool {
    reply matches Some(found) && value_at(found, datum("result"@)) matches Some(value) && fits(
        result,
        value,
    )
}

/// Where the scenario of two branches finishes, the covered click was refused in
/// the name of the branch's owner in the document that both share, and neither
/// counter moved.
pub proof fn cross_branch_clicks_name_the_owner(
    topology: Topology,
    cousins: bool,
    port: nat,
    events: Seq<EventView>,
)
    requires
        played(cross_branch_blocker(topology, cousins, port), events).status == Status::Finished,
    ensures
        ({
            let left = played(cross_branch_blocker(topology, cousins, port), events).outcomes;
            &&& brings(reply_of(left, 15), hits(1, 0))
            &&& refuses_for(reply_of(left, 18), "iframe#covering-branch"@)
            &&& brings(reply_of(left, 19), hits(1, 0))
        }),
{
    let steps = cross_branch_blocker(topology, cousins, port);
    finished_runs_settle_every_reply(steps, events, 25);
    finished_runs_settle_every_reply(steps, events, 26);
    finished_runs_settle_every_reply(steps, events, 27);
    assert(steps[25]->Settle_1[0] == result_is(hits(1, 0))[0]);
    assert(steps[26]->Settle_1[0] == covered_by("iframe#covering-branch"@)[0]);
    assert(steps[27]->Settle_1[0] == result_is(hits(1, 0))[0]);
}

/// Where the scenario of a shared shell finishes, the covered click was refused
/// in the name of the covering element of the shell, and neither counter moved.
pub proof fn shared_shell_clicks_name_the_element(
    topology: Topology,
    mode: ShadowMode,
    frame_overlay: bool,
    cousins: bool,
    port: nat,
    events: Seq<EventView>,
)
    requires
        played(
            shadow_frame_blocker(topology, mode, frame_overlay, cousins, port),
            events,
        ).status == Status::Finished,
    ensures
        ({
            let left = played(
                shadow_frame_blocker(topology, mode, frame_overlay, cousins, port),
                events,
            ).outcomes;
            let k: usize = if frame_overlay {
                7
            } else {
                4
            };
            &&& brings(reply_of(left, (k + 8) as usize), hits(1, 0))
            &&& refuses_for(reply_of(left, (k + 11) as usize), shell_blocker(frame_overlay))
            &&& brings(reply_of(left, (k + 12) as usize), hits(1, 0))
        }),
{
    let steps = shadow_frame_blocker(topology, mode, frame_overlay, cousins, port);
    let k: int = if frame_overlay {
        7
    } else {
        4
    };
    finished_runs_settle_every_reply(steps, events, k + 18);
    finished_runs_settle_every_reply(steps, events, k + 19);
    finished_runs_settle_every_reply(steps, events, k + 20);
    assert(steps[k + 18]->Settle_1[0] == result_is(hits(1, 0))[0]);
    assert(steps[k + 19]->Settle_1[0] == covered_by(shell_blocker(frame_overlay))[0]);
    assert(steps[k + 20]->Settle_1[0] == result_is(hits(1, 0))[0]);
}

/// Where the scenario of controls inside components finishes, the dialogs above
/// them kept both from being checked, and without the dialogs every check and
/// uncheck went through.
pub proof fn visuals_of_a_component_do_not_block_it(
    kind: Seq<char>,
    url: Seq<char>,
    events: Seq<EventView>,
)
    requires
        played(builtin_visuals(kind, url), events).status == Status::Finished,
    ensures
        ({
            let left = played(builtin_visuals(kind, url), events).outcomes;
            &&& refuses_for(reply_of(left, 4), "cookie-dialog#builtin-dialog-0"@)
            &&& refuses_for(reply_of(left, 5), "cookie-dialog#builtin-dialog-1"@)
            &&& brings(reply_of(left, 6), untouched(0))
            &&& brings(reply_of(left, 9), LiteralView::Truth(true))
            &&& brings(reply_of(left, 11), LiteralView::Truth(false))
            &&& brings(reply_of(left, 13), LiteralView::Truth(true))
            &&& brings(reply_of(left, 15), LiteralView::Truth(false))
            &&& brings(reply_of(left, 16), untouched(2))
        }),
{
    let steps = builtin_visuals(kind, url);
    finished_runs_settle_every_reply(steps, events, 18);
    finished_runs_settle_every_reply(steps, events, 19);
    finished_runs_settle_every_reply(steps, events, 20);
    finished_runs_settle_every_reply(steps, events, 22);
    finished_runs_settle_every_reply(steps, events, 24);
    finished_runs_settle_every_reply(steps, events, 26);
    finished_runs_settle_every_reply(steps, events, 28);
    finished_runs_settle_every_reply(steps, events, 29);
    assert(steps[18]->Settle_1[0] == covered_by("cookie-dialog#builtin-dialog-0"@)[0]);
    assert(steps[19]->Settle_1[0] == covered_by("cookie-dialog#builtin-dialog-1"@)[0]);
    assert(steps[20]->Settle_1[1] == worked_with(untouched(0))[1]);
    assert(steps[22]->Settle_1[1] == worked_with(LiteralView::Truth(true))[1]);
    assert(steps[24]->Settle_1[1] == worked_with(LiteralView::Truth(false))[1]);
    assert(steps[26]->Settle_1[1] == worked_with(LiteralView::Truth(true))[1]);
    assert(steps[28]->Settle_1[1] == worked_with(LiteralView::Truth(false))[1]);
    assert(steps[29]->Settle_1[1] == worked_with(untouched(2))[1]);
}

/// Where the scenario of a click inside a frame finishes, an uncovered click
/// reached its target and nothing else, and a covered one was refused in the
/// name of what covers it and reached nothing.
pub proof fn clicks_inside_frames_reach_the_target_or_nothing(
    topology: Topology,
    select_frame: bool,
    cover: Cover,
    scaled: bool,
    port: nat,
    events: Seq<EventView>,
)
    requires
        played(iframe_click(topology, select_frame, cover, scaled, port), events).status
            == Status::Finished,
    ensures
        ({
            let steps = iframe_click(topology, select_frame, cover, scaled, port);
            let left = played(steps, events).outcomes;
            let at = (steps.len() - 6) as usize;
            &&& reply_of(left, at) is Some
            &&& cover == Cover::Nothing ==> succeeded(reply_of(left, at)->0) && brings(
                reply_of(left, (at + 1) as usize),
                clicks(1, 0, 1),
            )
            &&& cover == Cover::Child ==> refuses_for(reply_of(left, at), "div#child-overlay"@)
                && brings(reply_of(left, (at + 1) as usize), clicks(0, 0, 1))
            &&& cover == Cover::Parent ==> refuses_for(reply_of(left, at), "div#parent-overlay"@)
                && brings(reply_of(left, (at + 1) as usize), clicks(0, 0, 0))
        }),
{
    let steps = iframe_click(topology, select_frame, cover, scaled, port);
    let n = steps.len() as int;
    let opening = click_opening(scaled, port);
    let top = opening + click_on_top((opening.len() - 1) as usize, cover, scaled, select_frame);
    let snapshot = (top.len() - 1) as usize;
    let geometry = top + click_geometry(snapshot, topology, scaled, select_frame);
    let last = click_in_frame(snapshot, geometry.len() as usize, cover);
    assert(n == geometry.len() + 6);
    assert(steps[n - 2] == last[4]);
    assert(steps[n - 1] == last[5]);
    finished_runs_settle_every_reply(steps, events, n - 2);
    finished_runs_settle_every_reply(steps, events, n - 1);
    let verdict = last[4]->Settle_1;
    let counted = last[5]->Settle_1;
    assert(met(verdict[0], reply_of(played(steps, events).outcomes, last[4]->Settle_0)->0));
    assert(met(counted[0], reply_of(played(steps, events).outcomes, last[5]->Settle_0)->0));
}

/// A count of hits is compared by both its numbers, and by nothing else; so is a
/// count of clicks by its three.
pub proof fn counts_are_compared_number_by_number(
    members: Map<Seq<char>, JsonView>,
    a: i64,
    b: i64,
    c: i64,
    name: Seq<char>,
)
    ensures
        fits(hits(a, b), JsonView::Object(members)) ==> {
            &&& members.contains_key("target"@) && fits(LiteralView::Whole(a), members["target"@])
            &&& members.contains_key("overlay"@) && fits(LiteralView::Whole(b), members["overlay"@])
            &&& members.contains_key(name) ==> name == "target"@ || name == "overlay"@
        },
        fits(clicks(a, b, c), JsonView::Object(members)) ==> {
            &&& members.contains_key("target"@) && fits(LiteralView::Whole(a), members["target"@])
            &&& members.contains_key("decoy"@) && fits(LiteralView::Whole(b), members["decoy"@])
            &&& members.contains_key("top"@) && fits(LiteralView::Whole(c), members["top"@])
            &&& members.contains_key(name) ==> name == "target"@ || name == "decoy"@ || name
                == "top"@
        },
{
    let two = hits(a, b)->Record_0;
    let three = clicks(a, b, c)->Record_0;
    assert(two[0].0 == "target"@ && two[1].0 == "overlay"@);
    assert(three[0].0 == "target"@ && three[1].0 == "decoy"@ && three[2].0 == "top"@);
    objects_fit_their_records(two, members, 0, name);
    objects_fit_their_records(two, members, 1, name);
    objects_fit_their_records(three, members, 0, name);
    objects_fit_their_records(three, members, 1, name);
    objects_fit_their_records(three, members, 2, name);
}

/// The demands: that a click is refused names what covers its target between the
/// marks; a result is looked for in the data; success comes first where both are
/// asked for; and no demand is none.
pub proof fn demands_say_what_they_are(element: Seq<char>, value: LiteralView)
    ensures
        covered_by(element) == seq![ExpectView::Refusal("covered by <"@ + element + ">"@)],
        result_is(value) == seq![ExpectView::At(seq!["data"@, "result"@], value)],
        worked_with(value) == seq![
            ExpectView::Success,
            ExpectView::At(seq!["data"@, "result"@], value),
        ],
        no_demand().len() == 0,
        success_only() == seq![ExpectView::Success],
{
}

proof fn lemma_sent(action: Seq<char>, url: Seq<char>)
    ensures
        sends(sent(bare(action)), "action"@, JsonView::Text(action)),
        sends(visited(url), "action"@, JsonView::Text("navigate"@)),
        sends(visited(url), "url"@, JsonView::Text(url)),
        sends(frame_chosen(url), "action"@, JsonView::Text("frame"@)),
        sends(frame_chosen(url), "url"@, JsonView::Text(url)),
        sends(sent(launched()), "action"@, JsonView::Text("launch"@)),
        sends(sent(launched()), "headless"@, JsonView::Bool(true)),
{
    reveal_strlit("action");
    reveal_strlit("url");
    assert("action"@.len() == 6 && "url"@.len() == 3);
    launches_are_headless();
    plain_commands_say_what_to_do(action, "url"@, LiteralView::Word(url), ""@);
    plain_commands_say_what_to_do("navigate"@, "url"@, LiteralView::Word(url), ""@);
    plain_commands_say_what_to_do("frame"@, "url"@, LiteralView::Word(url), ""@);
    crate::e2e::literal::literals_write_themselves_down(true, 0, url, Seq::empty(), 0);
}

/// Whether a step evaluates that script and leaves the demands for later.
pub open spec fn evaluates(step: StepView, script: Seq<char>) -> bool {
    step matches StepView::Send(command, _) && holds(
        document(command),
        "action"@,
        JsonView::Text("evaluate"@),
    ) && holds(document(command), "script"@, JsonView::Text(script))
}

proof fn lemma_asked(script: Seq<char>)
    ensures
        evaluates(asked(script), script),
        asked(script)->Send_1.len() == 0,
        evaluates(StepView::Send(evaluate_command(script), success_only()), script),
{
    let fields = evaluate_command(script)->Record_0;
    reveal_strlit("action");
    reveal_strlit("script");
    assert("action"@[0] == 'a' && "script"@[0] == 's');
    assert(fields[0].0 == "action"@ && fields[1].0 == "script"@);
    assert(names_field(fields, "action"@) && names_field(fields, "script"@));
    records_write_their_fields_down(fields, "action"@, 0);
    records_write_their_fields_down(fields, "script"@, 1);
}

/// Whether a step evaluates a script that has to work and give that.
pub open spec fn evaluates_to(step: StepView, script: Seq<char>, result: LiteralView) -> bool {
    evaluates(step, script) && step->Send_1 == seq![
        ExpectView::Success,
        ExpectView::At(seq!["data"@, "result"@], result),
    ]
}

proof fn lemma_evaluated(id: Seq<char>, script: Seq<char>, result: LiteralView)
    ensures
        evaluates_to(evaluated(id, script, result), script, result),
{
    pages_are_opened_and_looked_at(""@, id, script, result);
    assert(evaluated(id, script, result)->Send_1 =~= seq![
        ExpectView::Success,
        ExpectView::At(seq!["data"@, "result"@], result),
    ]);
}

/// The scenario of two branches: the page of that port is loaded; the origins are
/// as the topology has it; target and cover are found in their leaves, as deep as
/// they have to lie; the target is clicked uncovered, then covered by the other
/// branch, and the hits are counted each time; then all is closed and settled.
pub proof fn cross_branch_steps_come_in_order(topology: Topology, cousins: bool, port: nat)
    ensures
        ({
            let steps = cross_branch_blocker(topology, cousins, port);
            let same = topology == Topology::SameOrigin;
            let target = "Cross branch target"@;
            &&& steps.len() == 28
            &&& sends(steps[0], "action"@, JsonView::Text("launch"@))
            &&& sends(
                steps[1],
                "url"@,
                JsonView::Text("http://localhost:"@ + decimal(port) + "/"@),
            )
            &&& steps[2] == StepView::Await("!!(ready.target && ready.overlay)"@)
            &&& evaluates_to(
                steps[3],
                CHECK_ORIGINS@,
                LiteralView::List(
                    seq![
                        LiteralView::Truth(same),
                        LiteralView::Truth(same || !cousins),
                        LiteralView::Truth(same),
                    ],
                ),
            )
            &&& sends(steps[4], "action"@, JsonView::Text("frame"@)) && sends(
                steps[4],
                "url"@,
                JsonView::Text("/overlay-leaf"@),
            )
            &&& sends(steps[5], "action"@, JsonView::Text("snapshot"@))
            &&& steps[6] == StepView::Find(
                5,
                "Cross branch overlay"@,
                Facts { own_session: None, selected: None },
            )
            &&& sends(steps[7], "url"@, JsonView::Text("/target-leaf"@))
            &&& sends(steps[8], "action"@, JsonView::Text("snapshot"@))
            &&& steps[9] == StepView::Sessions(0)
            &&& steps[10] == StepView::Find(
                8,
                target,
                Facts { own_session: None, selected: Some(true) },
            )
            &&& sends(steps[11], "action"@, JsonView::Text("mainframe"@))
            &&& steps[12] == StepView::Frames(
                10,
                Some(6usize),
                if cousins {
                    4
                } else {
                    3
                },
            )
            &&& evaluates_to(steps[13], UNCOVERED_BRANCH@, LiteralView::Word("target-branch"@))
            &&& steps[14] == StepView::Act(8, target, "click"@, Seq::empty())
            &&& evaluates(steps[15], COUNT_HITS@)
            &&& evaluates_to(steps[16], COVER_BRANCH@, LiteralView::Word("covering-branch"@))
            &&& steps[17] == StepView::HitNode(10, 6)
            &&& steps[18] == StepView::Act(8, target, "click"@, Seq::empty())
            &&& evaluates(steps[19], COUNT_HITS@)
            &&& sends(steps[20], "action"@, JsonView::Text("close"@))
            &&& steps[21] == StepView::StopServers
            &&& steps[22] == StepView::Settle(14, seq![ExpectView::Success])
            &&& steps[23] == StepView::Settle(15, seq![ExpectView::Success])
            &&& steps[24] == StepView::Settle(19, seq![ExpectView::Success])
            &&& steps[25] == StepView::Settle(15, result_is(hits(1, 0)))
            &&& steps[26] == StepView::Settle(18, covered_by("iframe#covering-branch"@))
            &&& steps[27] == StepView::Settle(19, result_is(hits(1, 0)))
        }),
{
    let same = topology == Topology::SameOrigin;
    lemma_sent("snapshot"@, "http://localhost:"@ + decimal(port) + "/"@);
    lemma_sent("mainframe"@, "/overlay-leaf"@);
    lemma_sent("close"@, "/target-leaf"@);
    lemma_asked(COUNT_HITS@);
    lemma_evaluated("verify-origins"@, CHECK_ORIGINS@, truths(same, same || !cousins, same));
    lemma_evaluated(
        "uncovered-geometry"@,
        UNCOVERED_BRANCH@,
        LiteralView::Word("target-branch"@),
    );
    lemma_evaluated("cover-target"@, COVER_BRANCH@, LiteralView::Word("covering-branch"@));
}

/// The scenario of a shared shell: likewise, with the shell's mode among what is
/// checked first, the cover looked up only where it is a frame, and the hit
/// compared with that frame or with the panel inside the dialog.
pub proof fn shared_shell_steps_come_in_order(
    topology: Topology,
    mode: ShadowMode,
    frame_overlay: bool,
    cousins: bool,
    port: nat,
)
    ensures
        ({
            let steps = shadow_frame_blocker(topology, mode, frame_overlay, cousins, port);
            let same = topology == Topology::SameOrigin;
            let target = "Shared shell target"@;
            let k: int = if frame_overlay {
                7
            } else {
                4
            };
            &&& steps.len() == k + 21
            &&& sends(steps[0], "action"@, JsonView::Text("launch"@))
            &&& sends(
                steps[1],
                "url"@,
                JsonView::Text("http://localhost:"@ + decimal(port) + "/"@),
            )
            &&& frame_overlay ==> steps[2] == StepView::Await(
                "!!(ready.target && (false || ready.overlay))"@,
            )
            &&& !frame_overlay ==> steps[2] == StepView::Await(
                "!!(ready.target && (true || ready.overlay))"@,
            )
            &&& evaluates_to(
                steps[3],
                CHECK_SHELL@,
                LiteralView::List(
                    seq![
                        LiteralView::Truth(same),
                        LiteralView::Truth(same),
                        LiteralView::Truth(mode == ShadowMode::Open),
                    ],
                ),
            )
            &&& frame_overlay ==> sends(steps[4], "url"@, JsonView::Text("/overlay-leaf"@))
                && sends(steps[5], "action"@, JsonView::Text("snapshot"@)) && steps[6]
                == StepView::Find(
                5,
                "Shared shell chat"@,
                Facts { own_session: None, selected: None },
            )
            &&& sends(steps[k], "url"@, JsonView::Text("/target-leaf"@))
            &&& sends(steps[k + 1], "action"@, JsonView::Text("snapshot"@))
            &&& steps[k + 2] == StepView::Find(
                (k + 1) as usize,
                target,
                Facts { own_session: None, selected: Some(true) },
            )
            &&& steps[k + 3] == StepView::Sessions(0)
            &&& sends(steps[k + 4], "action"@, JsonView::Text("mainframe"@))
            &&& steps[k + 5] == StepView::Frames(
                (k + 2) as usize,
                if frame_overlay {
                    Some(6usize)
                } else {
                    None
                },
                if cousins {
                    4
                } else {
                    3
                },
            )
            &&& evaluates_to(steps[k + 6], UNCOVERED_SHELL@, LiteralView::Word("target-frame"@))
            &&& steps[k + 7] == StepView::Act((k + 1) as usize, target, "click"@, Seq::empty())
            &&& evaluates(steps[k + 8], COUNT_HITS@)
            &&& evaluates_to(
                steps[k + 9],
                COVER_SHELL@,
                LiteralView::Word(
                    if frame_overlay {
                        "chat-frame"@
                    } else {
                        "consent"@
                    },
                ),
            )
            &&& frame_overlay ==> steps[k + 10] == StepView::HitNode((k + 2) as usize, 6)
            &&& !frame_overlay ==> steps[k + 10] == StepView::HitInside(
                (k + 2) as usize,
                (k + 5) as usize,
                "consent-panel"@,
            )
            &&& steps[k + 11] == StepView::Act((k + 1) as usize, target, "click"@, Seq::empty())
            &&& evaluates(steps[k + 12], COUNT_HITS@)
            &&& sends(steps[k + 13], "action"@, JsonView::Text("close"@))
            &&& steps[k + 14] == StepView::StopServers
            &&& steps[k + 15] == StepView::Settle((k + 7) as usize, seq![ExpectView::Success])
            &&& steps[k + 16] == StepView::Settle((k + 8) as usize, seq![ExpectView::Success])
            &&& steps[k + 17] == StepView::Settle((k + 12) as usize, seq![ExpectView::Success])
            &&& steps[k + 18] == StepView::Settle((k + 8) as usize, result_is(hits(1, 0)))
            &&& steps[k + 19] == StepView::Settle(
                (k + 11) as usize,
                covered_by(
                    if frame_overlay {
                        "iframe#chat-frame"@
                    } else {
                        "cookie-dialog#consent"@
                    },
                ),
            )
            &&& steps[k + 20] == StepView::Settle((k + 12) as usize, result_is(hits(1, 0)))
        }),
{
    let same = topology == Topology::SameOrigin;
    lemma_sent("snapshot"@, "http://localhost:"@ + decimal(port) + "/"@);
    lemma_sent("mainframe"@, "/overlay-leaf"@);
    lemma_sent("close"@, "/target-leaf"@);
    lemma_asked(COUNT_HITS@);
    lemma_evaluated(
        "verify-shared-shell-topology"@,
        CHECK_SHELL@,
        truths(same, same, mode == ShadowMode::Open),
    );
    lemma_evaluated(
        "uncovered-shared-shell"@,
        UNCOVERED_SHELL@,
        LiteralView::Word("target-frame"@),
    );
    lemma_evaluated(
        "cover-shared-shell-target"@,
        COVER_SHELL@,
        LiteralView::Word(shell_cover(frame_overlay)),
    );
}

/// The scenario of frames inside other controls: the page of that port is loaded
/// with all four frames, which have sessions of their own exactly where they are of
/// another site.
pub proof fn frame_relationship_steps_come_in_order(topology: Topology, port: nat)
    ensures
        ({
            let steps = frame_relationships(topology, port);
            &&& steps.len() == 6
            &&& sends(steps[0], "action"@, JsonView::Text("launch"@))
            &&& sends(
                steps[1],
                "url"@,
                JsonView::Text("http://localhost:"@ + decimal(port) + "/"@),
            )
            &&& steps[2] == StepView::Await("window.ready.size === 4"@)
            &&& sends(steps[3], "action"@, JsonView::Text("snapshot"@))
            &&& steps[4] == StepView::Sessions(
                if topology == Topology::Oopif {
                    4
                } else {
                    0
                },
            )
            &&& evaluates_to(steps[5], CUSTOM_OWNER@, LiteralView::Word("FancyFrame"@))
        }),
{
    lemma_sent("snapshot"@, "http://localhost:"@ + decimal(port) + "/"@);
    lemma_evaluated("custom-owner"@, CUSTOM_OWNER@, LiteralView::Word("FancyFrame"@));
}

/// The scenario of controls inside components: both are checked while dialogs cover
/// them, then without; each is looked at after every check and uncheck.
pub proof fn component_steps_come_in_order(kind: Seq<char>, url: Seq<char>)
    ensures
        ({
            let steps = builtin_visuals(kind, url);
            let open = "open"@ + " "@ + kind + " toggle"@;
            let closed = "closed"@ + " "@ + kind + " toggle"@;
            &&& steps.len() == 30
            &&& sends(steps[0], "action"@, JsonView::Text("launch"@))
            &&& sends(steps[1], "url"@, JsonView::Text(url))
            &&& sends(steps[2], "action"@, JsonView::Text("snapshot"@))
            &&& evaluates_to(steps[3], CHECK_CONTROLS@, LiteralView::Truth(true))
            &&& steps[4] == StepView::Act(2, open, "check"@, Seq::empty())
            &&& steps[5] == StepView::Act(2, closed, "check"@, Seq::empty())
            &&& evaluates(steps[6], CONTROL_STATE@)
            &&& evaluates_to(steps[7], REMOVE_OVERLAYS@, LiteralView::Truth(true))
            &&& steps[8] == StepView::Act(2, open, "check"@, Seq::empty())
            &&& evaluates(steps[9], "window.controls[0].checked"@)
            &&& steps[10] == StepView::Act(2, open, "uncheck"@, Seq::empty())
            &&& evaluates(steps[11], "window.controls[0].checked"@)
            &&& steps[12] == StepView::Act(2, closed, "check"@, Seq::empty())
            &&& evaluates(steps[13], "window.controls[1].checked"@)
            &&& steps[14] == StepView::Act(2, closed, "uncheck"@, Seq::empty())
            &&& evaluates(steps[15], "window.controls[1].checked"@)
            &&& evaluates(steps[16], CONTROL_STATE@)
            &&& sends(steps[17], "action"@, JsonView::Text("close"@))
            &&& forall|i: int|
                #![trigger steps[i]]
                18 <= i < 30 ==> steps[i] is Settle
            &&& steps[21] == StepView::Settle(8, seq![ExpectView::Success])
            &&& steps[23] == StepView::Settle(10, seq![ExpectView::Success])
            &&& steps[25] == StepView::Settle(12, seq![ExpectView::Success])
            &&& steps[27] == StepView::Settle(14, seq![ExpectView::Success])
        }),
{
    lemma_sent("close"@, url);
    lemma_asked(CONTROL_STATE@);
    lemma_asked("window.controls[0].checked"@);
    lemma_asked("window.controls[1].checked"@);
    lemma_evaluated("builtin-component-geometry"@, CHECK_CONTROLS@, LiteralView::Truth(true));
    lemma_evaluated(
        "remove-builtin-component-overlays"@,
        REMOVE_OVERLAYS@,
        LiteralView::Truth(true),
    );
    pages_are_opened_and_looked_at(url, ""@, ""@, LiteralView::Truth(true));
}

/// The scenario of a click inside a frame opens with the page of that port, in a
/// window of twice the scale where that is asked for, and a snapshot once the frame
/// is ready.
pub proof fn click_openings_come_in_order(scaled: bool, port: nat)
    ensures
        ({
            let steps = click_opening(scaled, port);
            let n = steps.len() as int;
            &&& n == if scaled {
                5int
            } else {
                4int
            }
            &&& sends(steps[0], "action"@, JsonView::Text("launch"@))
            &&& scaled ==> sends(steps[1], "action"@, JsonView::Text("viewport"@)) && sends(
                steps[1],
                "width"@,
                document(LiteralView::Whole(1280)),
            ) && sends(steps[1], "height"@, document(LiteralView::Whole(720))) && sends(
                steps[1],
                "deviceScaleFactor"@,
                document(LiteralView::Whole(2)),
            )
            &&& sends(
                steps[n - 3],
                "url"@,
                JsonView::Text("http://localhost:"@ + decimal(port) + "/"@),
            )
            &&& steps[n - 2] == StepView::Await("window.childReady"@)
            &&& sends(steps[n - 1], "action"@, JsonView::Text("snapshot"@))
        }),
{
    lemma_sent("snapshot"@, "http://localhost:"@ + decimal(port) + "/"@);
    let fields = scaled_viewport()->Record_0;
    reveal_strlit("action");
    reveal_strlit("width");
    reveal_strlit("height");
    reveal_strlit("deviceScaleFactor");
    assert("action"@[0] == 'a' && "height"@[0] == 'h');
    assert("width"@.len() == 5 && "deviceScaleFactor"@.len() == 17);
    assert("action"@.len() == 6 && "height"@.len() == 6);
    assert(fields[0].0 == "action"@ && fields[1].0 == "width"@);
    assert(fields[2].0 == "height"@ && fields[3].0 == "deviceScaleFactor"@);
    assert(names_field(fields, "action"@) && names_field(fields, "width"@));
    assert(names_field(fields, "height"@) && names_field(fields, "deviceScaleFactor"@));
    records_write_their_fields_down(fields, "action"@, 0);
    records_write_their_fields_down(fields, "width"@, 1);
    records_write_their_fields_down(fields, "height"@, 2);
    records_write_their_fields_down(fields, "deviceScaleFactor"@, 3);
}

/// It goes on with the page's own button, which a cover over the page blocks and
/// nothing else does; the page is scrolled and the frame chosen where that is asked
/// for; and a second snapshot is taken.
pub proof fn top_clicks_come_in_order(
    snapshot: usize,
    cover: Cover,
    scaled: bool,
    select_frame: bool,
)
    ensures
        ({
            let steps = click_on_top(snapshot, cover, scaled, select_frame);
            let n = steps.len() as int;
            &&& n == 2 + (if scaled {
                1int
            } else {
                0int
            }) + if select_frame {
                1int
            } else {
                0int
            }
            &&& steps[0] == StepView::Act(
                snapshot,
                "Top target"@,
                "click"@,
                if cover == Cover::Parent {
                    covered_by("div#parent-overlay"@)
                } else {
                    seq![ExpectView::Success]
                },
            )
            &&& scaled ==> evaluates_to(
                steps[1],
                SCROLL_PAGE@,
                LiteralView::List(seq![LiteralView::Whole(60), LiteralView::Whole(2)]),
            )
            &&& select_frame ==> steps[n - 2] == StepView::Act(
                snapshot,
                "Click frame"@,
                "frame"@,
                seq![ExpectView::Success],
            )
            &&& sends(steps[n - 1], "action"@, JsonView::Text("snapshot"@))
        }),
{
    lemma_sent("snapshot"@, ""@);
    lemma_evaluated(
        "scroll"@,
        SCROLL_PAGE@,
        pair(LiteralView::Whole(60), LiteralView::Whole(2)),
    );
}

/// The target inside the frame has a session of its own exactly where it is of
/// another site, and lies in the chosen frame where one was chosen. There it is
/// measured, after the frame was scrolled where it is of another site and the scale
/// is changed; the page around it can be reached exactly where it is of one origin.
pub proof fn targets_are_measured_in_order(
    snapshot: usize,
    topology: Topology,
    scaled: bool,
    select_frame: bool,
)
    requires
        snapshot < usize::MAX,
    ensures
        ({
            let steps = click_geometry(snapshot, topology, scaled, select_frame);
            let found = (snapshot + 1) as usize;
            let n = steps.len() as int;
            let scrolled = topology == Topology::Oopif && scaled;
            &&& n == if scrolled {
                4int
            } else {
                2int
            }
            &&& steps[0] == StepView::Find(
                snapshot,
                "Frame target"@,
                Facts {
                    own_session: Some(topology == Topology::Oopif),
                    selected: if select_frame {
                        Some(true)
                    } else {
                        None
                    },
                },
            )
            &&& scrolled ==> steps[1] == StepView::Call(
                found,
                SCROLL_FRAME@,
                seq![
                    ExpectView::At(
                        seq!["result"@, "value"@],
                        LiteralView::List(seq![LiteralView::Whole(200), LiteralView::Truth(true)]),
                    ),
                ],
            ) && steps[2] == StepView::PointAt(found, 70, 215, "decoy"@)
            &&& steps[n - 1] == StepView::Call(
                found,
                MEASURE_TARGET@,
                seq![
                    ExpectView::At(
                        seq!["result"@, "value"@, "disjoint"@],
                        LiteralView::Truth(true),
                    ),
                    ExpectView::At(
                        seq!["result"@, "value"@, "parentAccessible"@],
                        LiteralView::Truth(topology == Topology::SameOrigin),
                    ),
                ],
            )
        }),
{
    assert(returned().push("disjoint"@) =~= seq!["result"@, "value"@, "disjoint"@]);
    assert(returned().push("parentAccessible"@) =~= seq![
        "result"@,
        "value"@,
        "parentAccessible"@,
    ]);
}

/// Last the target is clicked and the clicks are counted; all is closed, and the
/// click and the count are settled: an uncovered click works and counts, a covered
/// one is refused in the name of its cover and does not.
pub proof fn frame_clicks_come_in_order(snapshot: usize, at: usize, cover: Cover)
    requires
        at < usize::MAX,
    ensures
        ({
            let steps = click_in_frame(snapshot, at, cover);
            let after = (at + 1) as usize;
            &&& steps.len() == 6
            &&& steps[0] == StepView::Act(snapshot, "Frame target"@, "click"@, Seq::empty())
            &&& evaluates(steps[1], COUNT_CLICKS@) && steps[1]->Send_1 == seq![ExpectView::Success]
            &&& sends(steps[2], "action"@, JsonView::Text("close"@))
            &&& steps[3] == StepView::StopServers
            &&& cover == Cover::Nothing ==> steps[4] == StepView::Settle(
                at,
                seq![ExpectView::Success],
            ) && steps[5] == StepView::Settle(after, result_is(clicks(1, 0, 1)))
            &&& cover == Cover::Child ==> steps[4] == StepView::Settle(
                at,
                covered_by("div#child-overlay"@),
            ) && steps[5] == StepView::Settle(after, result_is(clicks(0, 0, 1)))
            &&& cover == Cover::Parent ==> steps[4] == StepView::Settle(
                at,
                covered_by("div#parent-overlay"@),
            ) && steps[5] == StepView::Settle(after, result_is(clicks(0, 0, 0)))
        }),
{
    lemma_sent("close"@, ""@);
    lemma_asked(COUNT_CLICKS@);
}

/// The parts follow each other, and each speaks of the snapshot before it.
pub proof fn clicks_inside_frames_come_in_order(
    topology: Topology,
    select_frame: bool,
    cover: Cover,
    scaled: bool,
    port: nat,
)
    ensures
        ({
            let first: nat = if scaled {
                5
            } else {
                4
            };
            let second = first + 2 + (if scaled {
                1nat
            } else {
                0nat
            }) + if select_frame {
                1nat
            } else {
                0nat
            };
            let third = second + if topology == Topology::Oopif && scaled {
                4nat
            } else {
                2nat
            };
            let steps = iframe_click(topology, select_frame, cover, scaled, port);
            &&& steps.len() == third + 6
            &&& steps.take(first as int) == click_opening(scaled, port)
            &&& steps.subrange(first as int, second as int) == click_on_top(
                (first - 1) as usize,
                cover,
                scaled,
                select_frame,
            )
            &&& steps.subrange(second as int, third as int) == click_geometry(
                (second - 1) as usize,
                topology,
                scaled,
                select_frame,
            )
            &&& steps.skip(third as int) == click_in_frame(
                (second - 1) as usize,
                third as usize,
                cover,
            )
        }),
{
    let opening = click_opening(scaled, port);
    let one = click_on_top((opening.len() - 1) as usize, cover, scaled, select_frame);
    let top = opening + one;
    let two = click_geometry((top.len() - 1) as usize, topology, scaled, select_frame);
    let geometry = top + two;
    let three = click_in_frame((top.len() - 1) as usize, geometry.len() as usize, cover);
    let steps = iframe_click(topology, select_frame, cover, scaled, port);
    assert(steps == geometry + three);
    assert(steps.take(opening.len() as int) =~= opening);
    assert(steps.subrange(opening.len() as int, top.len() as int) =~= one);
    assert(steps.subrange(top.len() as int, geometry.len() as int) =~= two);
    assert(steps.skip(geometry.len() as int) =~= three);
}

/// Nothing was touched where both targets were hit so often, what covers them never
/// was, and neither control is checked.
pub proof fn untouched_controls_are_unchecked(target: i64)
    ensures
        untouched(target) == LiteralView::Record(
            seq![
                (
                    "hits"@,
                    LiteralView::List(
                        seq![
                            LiteralView::Record(
                                seq![
                                    ("target"@, LiteralView::Whole(target)),
                                    ("overlay"@, LiteralView::Whole(0)),
                                ],
                            ),
                            LiteralView::Record(
                                seq![
                                    ("target"@, LiteralView::Whole(target)),
                                    ("overlay"@, LiteralView::Whole(0)),
                                ],
                            ),
                        ],
                    ),
                ),
                (
                    "checked"@,
                    LiteralView::List(seq![LiteralView::Truth(false), LiteralView::Truth(false)]),
                ),
            ],
        ),
{
}

/// A refusal is a failure whose error says by what the target is covered.
pub proof fn refusals_are_failures(reply: JsonView, error: Seq<char>, element: Seq<char>)
    requires
        holds(reply, "error"@, JsonView::Text(error)),
    ensures
        refuses_for(Some(reply), element) <==> holds(reply, "success"@, JsonView::Bool(false))
            && occurs(error, "covered by <"@ + element + ">"@),
        !refuses_for(None, element),
{
}

} // verus!
