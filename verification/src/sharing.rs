//! Several connections that share the daemon's state.

use crate::connection::{
    answers, commands_and_responses_pair_up, count, executes, locks, run, step, unlocks, ActionView,
    EventView,
};
use vstd::prelude::*;

verus! {

/// Something that one of the connections does.
pub type Deed = (nat, ActionView);

/// What one of the connections does, in order.
pub open spec fn deeds_of(schedule: Seq<Deed>, who: nat) -> Seq<ActionView>
    decreases schedule.len(),
{
    if schedule.len() == 0 {
        Seq::empty()
    } else {
        let earlier = deeds_of(schedule.drop_last(), who);
        if schedule.last().0 == who {
            earlier.push(schedule.last().1)
        } else {
            earlier
        }
    }
}

/// Whether a connection may have done that much, and no more yet.
pub open spec fn done_so_far(actions: Seq<ActionView>) -> bool {
    exists|stream_file: bool, events: Seq<EventView>|
        actions.is_prefix_of((#[trigger] run(stream_file, events)).1)
}

/// Whether that leaves the state in the hands of the connection.
pub open spec fn held(actions: Seq<ActionView>) -> bool {
    count(actions, locks()) > count(actions, unlocks())
}

/// Whether the state is in the hands of that connection.
pub open spec fn holds(schedule: Seq<Deed>, who: nat) -> bool {
    held(deeds_of(schedule, who))
}

/// Whether connections may come to do these things in this order: each goes its
/// own way, and the state can be taken only while no one holds it.
pub open spec fn possible(schedule: Seq<Deed>) -> bool {
    &&& forall|who: nat| done_so_far(#[trigger] deeds_of(schedule, who))
    &&& forall|i: int, who: nat|
        0 <= i < schedule.len() && schedule[i].1 is LockState ==> !#[trigger] holds(
            schedule.take(i),
            who,
        )
}

/// Whether a connection that has done so much may do that next, as far as the
/// state is concerned: it takes the state when it does not hold it, executes one
/// command while it does, lets go of it, and answers then.
pub open spec fn legal(done: Seq<ActionView>, next: ActionView) -> bool {
    match next {
        ActionView::LockState => count(done, locks()) == count(done, unlocks()) && count(
            done,
            executes(),
        ) == count(done, locks()) && count(done, answers()) == count(done, unlocks()),
        ActionView::Execute(_) => count(done, locks()) == count(done, unlocks()) + 1 && count(
            done,
            executes(),
        ) == count(done, unlocks()),
        ActionView::UnlockState => count(done, locks()) == count(done, unlocks()) + 1 && count(
            done,
            executes(),
        ) == count(done, locks()),
        ActionView::Send(_) => count(done, locks()) == count(done, unlocks()) && count(
            done,
            answers(),
        ) + 1 == count(done, unlocks()),
        _ => true,
    }
}

/// Whether each of the actions was legal in its turn.
pub open spec fn disciplined(actions: Seq<ActionView>) -> bool
    decreases actions.len(),
{
    actions.len() == 0 || (disciplined(actions.drop_last()) && legal(
        actions.drop_last(),
        actions.last(),
    ))
}

proof fn lemma_push(done: Seq<ActionView>, next: ActionView)
    ensures
        forall|kind: spec_fn(ActionView) -> bool| #[trigger]
            count(done.push(next), kind) == count(done, kind) + if kind(next) {
                1nat
            } else {
                0nat
            },
        disciplined(done.push(next)) == (disciplined(done) && legal(done, next)),
{
    assert(done.push(next).drop_last() =~= done);
}

proof fn lemma_discipline_counts(actions: Seq<ActionView>)
    requires
        disciplined(actions),
    ensures
        count(actions, unlocks()) <= count(actions, locks()) <= count(actions, unlocks()) + 1,
        count(actions, answers()) <= count(actions, unlocks()),
        count(actions, unlocks()) <= count(actions, executes()) <= count(actions, locks()),
    decreases actions.len(),
{
    if actions.len() > 0 {
        lemma_discipline_counts(actions.drop_last());
    }
}

proof fn lemma_discipline_of_prefix(actions: Seq<ActionView>, n: int)
    requires
        disciplined(actions),
        0 <= n <= actions.len(),
    ensures
        disciplined(actions.take(n)),
    decreases actions.len(),
{
    if n == actions.len() {
        assert(actions.take(n) =~= actions);
    } else {
        lemma_discipline_of_prefix(actions.drop_last(), n);
        assert(actions.drop_last().take(n) =~= actions.take(n));
    }
}

/// Whether an action has nothing to do with the state.
pub open spec fn neutral(action: ActionView) -> bool {
    !(action is LockState) && !(action is Execute) && !(action is UnlockState) && !(action is Send)
}

proof fn lemma_neutral_rest(done: Seq<ActionView>, rest: Seq<ActionView>)
    requires
        disciplined(done),
        forall|i: int| 0 <= i < rest.len() ==> neutral(#[trigger] rest[i]),
    ensures
        disciplined(done + rest),
    decreases rest.len(),
{
    if rest.len() == 0 {
        assert(done + rest =~= done);
    } else {
        lemma_neutral_rest(done, rest.drop_last());
        assert((done + rest).drop_last() =~= done + rest.drop_last());
        assert(neutral(rest[rest.len() - 1]));
    }
}

/// Every connection keeps to the discipline, whatever happens on it.
pub proof fn connections_are_disciplined(stream_file: bool, events: Seq<EventView>)
    ensures
        disciplined(run(stream_file, events).1),
    decreases events.len(),
{
    if events.len() > 0 {
        let earlier = events.drop_last();
        connections_are_disciplined(stream_file, earlier);
        commands_and_responses_pair_up(stream_file, earlier);
        let (phase, done) = run(stream_file, earlier);
        lemma_discipline_counts(done);
        let (next, rest) = step(stream_file, phase, events.last());
        if phase is Reading && next is Executing {
            let marked = done.push(ActionView::MarkActivity);
            let locked = marked.push(ActionView::LockState);
            lemma_push(done, ActionView::MarkActivity);
            lemma_push(marked, ActionView::LockState);
            lemma_push(locked, rest[2]);
            assert(done + rest =~= locked.push(rest[2]));
        } else if phase is Executing && next is Sending {
            let marked = done.push(ActionView::MarkActivity);
            let unlocked = marked.push(ActionView::UnlockState);
            lemma_push(done, ActionView::MarkActivity);
            lemma_push(marked, ActionView::UnlockState);
            lemma_push(unlocked, rest[2]);
            assert(done + rest =~= unlocked.push(rest[2]));
        } else {
            lemma_neutral_rest(done, rest);
        }
    } else {
        let done = Seq::<ActionView>::empty();
        let rest = run(stream_file, events).1;
        lemma_neutral_rest(done, rest);
        assert(done + rest =~= rest);
    }
}

proof fn lemma_done_is_disciplined(actions: Seq<ActionView>)
    requires
        done_so_far(actions),
    ensures
        disciplined(actions),
{
    let (stream_file, events) = choose|stream_file: bool, events: Seq<EventView>|
        actions.is_prefix_of((#[trigger] run(stream_file, events)).1);
    let all = run(stream_file, events).1;
    connections_are_disciplined(stream_file, events);
    lemma_discipline_of_prefix(all, actions.len() as int);
    assert(all.take(actions.len() as int) =~= actions);
}

proof fn lemma_deeds_of_prefix(schedule: Seq<Deed>, i: int, who: nat)
    requires
        0 <= i <= schedule.len(),
    ensures
        deeds_of(schedule.take(i), who).is_prefix_of(deeds_of(schedule, who)),
    decreases schedule.len(),
{
    if i == schedule.len() {
        assert(schedule.take(i) =~= schedule);
    } else {
        let rest = schedule.drop_last();
        lemma_deeds_of_prefix(rest, i, who);
        assert(rest.take(i) =~= schedule.take(i));
        let part = deeds_of(schedule.take(i), who);
        let whole = deeds_of(schedule, who);
        assert(deeds_of(rest, who) =~= whole.subrange(0, deeds_of(rest, who).len() as int));
        assert(part =~= whole.subrange(0, part.len() as int));
    }
}

proof fn lemma_possible_prefix(schedule: Seq<Deed>, i: int)
    requires
        possible(schedule),
        0 <= i <= schedule.len(),
    ensures
        possible(schedule.take(i)),
{
    let part = schedule.take(i);
    assert forall|who: nat| done_so_far(#[trigger] deeds_of(part, who)) by {
        lemma_deeds_of_prefix(schedule, i, who);
        let (stream_file, events) = choose|stream_file: bool, events: Seq<EventView>|
            deeds_of(schedule, who).is_prefix_of((#[trigger] run(stream_file, events)).1);
        assert(done_so_far(deeds_of(schedule, who)));
        let all = run(stream_file, events).1;
        let done = deeds_of(part, who);
        assert(done =~= all.subrange(0, done.len() as int));
        assert(done.is_prefix_of(run(stream_file, events).1));
    }
    assert forall|k: int, who: nat| 0 <= k < part.len() && part[k].1 is LockState implies
        !#[trigger] holds(part.take(k), who) by {
        assert(part.take(k) =~= schedule.take(k));
        assert(schedule[k].1 is LockState);
        assert(!holds(schedule.take(k), who));
    }
}

proof fn lemma_next_deed(schedule: Seq<Deed>, i: int)
    requires
        possible(schedule),
        0 <= i < schedule.len(),
    ensures
        disciplined(deeds_of(schedule.take(i), schedule[i].0)),
        legal(deeds_of(schedule.take(i), schedule[i].0), schedule[i].1),
        deeds_of(schedule.take(i + 1), schedule[i].0) == deeds_of(
            schedule.take(i),
            schedule[i].0,
        ).push(schedule[i].1),
        forall|who: nat|
            who != schedule[i].0 ==> #[trigger] deeds_of(schedule.take(i + 1), who) == deeds_of(
                schedule.take(i),
                who,
            ),
{
    let who = schedule[i].0;
    lemma_possible_prefix(schedule, i + 1);
    assert(schedule.take(i + 1).drop_last() =~= schedule.take(i));
    assert(schedule.take(i + 1).last() == schedule[i]);
    lemma_done_is_disciplined(deeds_of(schedule.take(i + 1), who));
    lemma_push(deeds_of(schedule.take(i), who), schedule[i].1);
}

/// The state is never in the hands of two connections.
pub proof fn one_connection_holds_the_state(schedule: Seq<Deed>, a: nat, b: nat)
    requires
        possible(schedule),
        holds(schedule, a),
        holds(schedule, b),
    ensures
        a == b,
    decreases schedule.len(),
{
    if schedule.len() > 0 {
        let i = schedule.len() - 1;
        let (who, what) = schedule[i];
        lemma_next_deed(schedule, i);
        lemma_possible_prefix(schedule, i);
        assert(schedule.take(i + 1) =~= schedule);
        lemma_push(deeds_of(schedule.take(i), who), what);
        if what is LockState {
            assert(!holds(schedule.take(i), a));
            assert(!holds(schedule.take(i), b));
        } else {
            one_connection_holds_the_state(schedule.take(i), a, b);
        }
    }
}

/// A command is executed only by a connection that holds the state, and no other
/// holds it then.
pub proof fn commands_run_one_at_a_time(schedule: Seq<Deed>, i: int)
    requires
        possible(schedule),
        0 <= i < schedule.len(),
        schedule[i].1 is Execute,
    ensures
        holds(schedule.take(i), schedule[i].0),
        forall|other: nat|
            other != schedule[i].0 ==> !#[trigger] holds(schedule.take(i), other),
{
    lemma_next_deed(schedule, i);
    lemma_possible_prefix(schedule, i);
    assert forall|other: nat| other != schedule[i].0 implies !#[trigger] holds(
        schedule.take(i),
        other,
    ) by {
        if holds(schedule.take(i), other) {
            one_connection_holds_the_state(schedule.take(i), other, schedule[i].0);
        }
    }
}

/// Whether a connection takes the state at `i`, and has not let go of it before
/// `j`.
pub open spec fn keeps(schedule: Seq<Deed>, who: nat, i: int, j: int) -> bool {
    &&& 0 <= i < j <= schedule.len()
    &&& schedule[i] == (who, ActionView::LockState)
    &&& forall|k: int|
        i < k < j ==> #[trigger] schedule[k] != (who, ActionView::UnlockState)
}

proof fn lemma_keeps_holds(schedule: Seq<Deed>, who: nat, i: int, j: int)
    requires
        possible(schedule),
        keeps(schedule, who, i, j),
    ensures
        holds(schedule.take(j), who),
    decreases j - i,
{
    lemma_next_deed(schedule, j - 1);
    lemma_push(deeds_of(schedule.take(j - 1), schedule[j - 1].0), schedule[j - 1].1);
    if j == i + 1 {
        assert(!holds(schedule.take(i), who));
    } else {
        lemma_keeps_holds(schedule, who, i, j - 1);
        assert(schedule[j - 1] != (who, ActionView::UnlockState));
    }
}

/// From the moment when one connection takes the state until it lets go of it,
/// no other takes it, executes a command or lets go of it.
pub proof fn others_wait_for_the_state(schedule: Seq<Deed>, who: nat, i: int, j: int)
    requires
        possible(schedule),
        keeps(schedule, who, i, j),
        j < schedule.len(),
        schedule[j].0 != who,
    ensures
        !(schedule[j].1 is LockState),
        !(schedule[j].1 is Execute),
        !(schedule[j].1 is UnlockState),
{
    lemma_keeps_holds(schedule, who, i, j);
    lemma_next_deed(schedule, j);
    lemma_possible_prefix(schedule, j);
    if holds(schedule.take(j), schedule[j].0) {
        one_connection_holds_the_state(schedule.take(j), who, schedule[j].0);
    }
    if schedule[j].1 is LockState {
        assert(!holds(schedule.take(j), who));
    }
}

/// A command that comes in while another connection holds the state is answered
/// only after that one lets go of it: until then the connection executes no
/// command more than it had before, and it never has more answers than executed
/// commands.
pub proof fn queued_commands_are_answered_later(
    schedule: Seq<Deed>,
    who: nat,
    i: int,
    j: int,
    other: nat,
)
    requires
        possible(schedule),
        keeps(schedule, who, i, j),
        other != who,
    ensures
        count(deeds_of(schedule.take(j), other), executes()) == count(
            deeds_of(schedule.take(i), other),
            executes(),
        ),
        count(deeds_of(schedule.take(j), other), answers()) <= count(
            deeds_of(schedule.take(i), other),
            executes(),
        ),
    decreases j - i,
{
    lemma_possible_prefix(schedule, j);
    assert(done_so_far(deeds_of(schedule.take(j), other)));
    lemma_done_is_disciplined(deeds_of(schedule.take(j), other));
    lemma_discipline_counts(deeds_of(schedule.take(j), other));
    lemma_next_deed(schedule, j - 1);
    lemma_push(deeds_of(schedule.take(j - 1), schedule[j - 1].0), schedule[j - 1].1);
    if j > i + 1 {
        queued_commands_are_answered_later(schedule, who, i, j - 1, other);
        if schedule[j - 1].0 == other {
            others_wait_for_the_state(schedule, who, i, j - 1);
        }
    }
}

} // verus!
