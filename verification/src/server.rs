//! The daemon's loop, as a machine: each event gives the actions that the
//! program is to perform before the next one.

use crate::idle::{
    idle_time_left, nanos_of_ms, timeout_nanos, IdleActivity, IdleTimeout, DEFAULT_IDLE_TIMEOUT_MS,
};
use crate::state::{BackendType, BrowserOrigin, DaemonState};
use crate::text::{decimal, push_decimal};
use vstd::prelude::*;

verus! {

/// How often the loop looks after the browser, in milliseconds.
pub const DRAIN_INTERVAL_MS: u64 = 500;

/// The family of operating systems that the daemon runs on. On Unix it listens
/// on a Unix domain socket; on Windows it uses TCP and a file with its port.
#[derive(Clone, Copy, Debug, PartialEq, Eq, Structural)]
pub enum Platform {
    Unix,
    Windows,
}

/// What happens to the daemon.
pub enum EventView {
    Accepted,
    AcceptFailed(Seq<char>),
    DrainTick(DaemonState),
    Drained(Option<Seq<char>>),
    IdleTimer(u128, DaemonState),
    Activity,
    CloseRequested,
    Signal,
}

/// What happens to the daemon.
#[derive(Debug, PartialEq)]
pub enum Event {
    /// A client connected.
    Accepted,
    /// A connection could not be accepted, with the complaint.
    AcceptFailed(String),
    /// It is time to look after the browser, which stands so.
    DrainTick(DaemonState),
    /// The browser's events were taken in, or that failed, with the complaint.
    Drained(Option<String>),
    /// The idle timer went off, that many nanoseconds after the last work, and
    /// the browser stands so.
    IdleTimer(u128, DaemonState),
    /// There was work.
    Activity,
    /// A client closed the browser, and the daemon is to exit.
    CloseRequested,
    /// The system asks the daemon to stop.
    Signal,
}

impl View for Event {
    type V = EventView;

    open spec fn view(&self) -> EventView {
        match self {
            Event::Accepted => EventView::Accepted,
            Event::AcceptFailed(message) => EventView::AcceptFailed(message@),
            Event::DrainTick(state) => EventView::DrainTick(*state),
            Event::Drained(Some(message)) => EventView::Drained(Some(message@)),
            Event::Drained(None) => EventView::Drained(None),
            Event::IdleTimer(elapsed, state) => EventView::IdleTimer(*elapsed, *state),
            Event::Activity => EventView::Activity,
            Event::CloseRequested => EventView::CloseRequested,
            Event::Signal => EventView::Signal,
        }
    }
}

/// What the program is to do.
pub enum ActionView {
    Serve,
    Log(Seq<char>),
    CloseCurrentBrowser,
    DrainEvents,
    Autosave(u64),
    ArmIdleTimer(u128),
    SaveRestoreState,
    CloseAllBackends,
    RemovePortFile,
    Exit,
}

/// What the program is to do.
#[derive(Debug, PartialEq)]
pub enum Action {
    /// Serve the client that connected.
    Serve,
    /// Write a line to the log.
    Log(String),
    /// Let go of a browser whose process is gone.
    CloseCurrentBrowser,
    /// Take in the browser's events, and report how that went.
    DrainEvents,
    /// Save the session, unless it was saved less than so many milliseconds ago.
    Autosave(u64),
    /// Set the idle timer, in place of one that runs, to so many nanoseconds.
    ArmIdleTimer(u128),
    /// Save the session for a later restore, where that is configured.
    SaveRestoreState,
    /// Close every browser.
    CloseAllBackends,
    /// Remove the file that names the daemon's port.
    RemovePortFile,
    /// Leave the loop.
    Exit,
}

impl View for Action {
    type V = ActionView;

    open spec fn view(&self) -> ActionView {
        match self {
            Action::Serve => ActionView::Serve,
            Action::Log(message) => ActionView::Log(message@),
            Action::CloseCurrentBrowser => ActionView::CloseCurrentBrowser,
            Action::DrainEvents => ActionView::DrainEvents,
            Action::Autosave(ms) => ActionView::Autosave(*ms),
            Action::ArmIdleTimer(nanos) => ActionView::ArmIdleTimer(*nanos),
            Action::SaveRestoreState => ActionView::SaveRestoreState,
            Action::CloseAllBackends => ActionView::CloseAllBackends,
            Action::RemovePortFile => ActionView::RemovePortFile,
            Action::Exit => ActionView::Exit,
        }
    }
}

/// The actions, in order.
pub open spec fn action_views(actions: Seq<Action>) -> Seq<ActionView> {
    actions.map_values(|action: Action| action@)
}

/// What the loop is set up with.
#[derive(Clone, Copy, Debug, PartialEq, Eq, Structural)]
pub struct Config {
    pub platform: Platform,
    /// How long the daemon waits for work; without one it waits for ever.
    pub idle_timeout: Option<IdleTimeout>,
    /// Minimum time between periodic saves of the session; 0 disables them.
    pub autosave_interval_ms: u64,
}

/// The length of the idle timer that runs, if one does, and whether the loop
/// goes on.
#[derive(Clone, Copy, Debug, PartialEq, Eq, Structural)]
pub struct LoopState {
    pub armed: Option<u128>,
    pub running: bool,
}

/// The announcement of a shutdown for want of work.
pub open spec fn idle_notice() -> Seq<char> {
    "Idle for "@ + decimal((DEFAULT_IDLE_TIMEOUT_MS / 60_000) as nat)
        + "m with no commands or dashboard input; saving configured restore state and shutting down (AGENT_BROWSER_IDLE_TIMEOUT_MS=0 disables)"@
}

/// The last actions of the loop: on Windows the port file goes first.
pub open spec fn leave(platform: Platform) -> Seq<ActionView> {
    match platform {
        Platform::Unix => seq![ActionView::Exit],
        Platform::Windows => seq![ActionView::RemovePortFile, ActionView::Exit],
    }
}

/// Saving and closing, for a browser that is still there.
pub open spec fn wind_down(platform: Platform) -> Seq<ActionView> {
    seq![ActionView::SaveRestoreState, ActionView::CloseAllBackends] + leave(platform)
}

/// The idle timer set anew.
pub open spec fn rearm(nanos: nat) -> (LoopState, Seq<ActionView>) {
    (
        LoopState { armed: Some(nanos as u128), running: true },
        seq![ActionView::ArmIdleTimer(nanos as u128)],
    )
}

/// What an idle timer that went off leads to. A command may have held the state
/// past the timer, and its end restarted the idle clock: then what is left of
/// the timeout is waited for. The default timeout is a leak backstop, no
/// lifecycle policy: it never pulls a browser out from under a human.
pub open spec fn idle_step(platform: Platform, timeout: IdleTimeout, elapsed: u128, state: DaemonState) -> (
    LoopState,
    Seq<ActionView>,
) {
    match idle_time_left(elapsed as nat, timeout.ms) {
        Some(left) => rearm(left),
        None => if timeout.is_default && state.in_human_reach() {
            rearm(timeout_nanos(timeout.ms))
        } else if timeout.is_default {
            (
                LoopState { armed: None, running: false },
                seq![ActionView::Log(idle_notice())] + wind_down(platform),
            )
        } else {
            (LoopState { armed: None, running: false }, wind_down(platform))
        },
    }
}

/// What is done when it is time to look after the browser.
pub open spec fn drain_actions(state: DaemonState) -> Seq<ActionView> {
    match state.browser {
        Some(browser) => if browser.process_exited {
            seq![ActionView::CloseCurrentBrowser]
        } else {
            seq![ActionView::DrainEvents]
        },
        None => Seq::empty(),
    }
}

/// What is done once the browser's events were taken in, or could not be: a
/// save must never run against a page that a dialog blocks, and only a clean
/// drain shows that none does.
pub open spec fn drained_actions(config: Config, failure: Option<Seq<char>>) -> Seq<ActionView> {
    match failure {
        Some(message) => seq![
            ActionView::Log("Failed to apply browser network controls: "@ + message),
        ],
        None => seq![ActionView::Autosave(config.autosave_interval_ms)],
    }
}

/// Where an event leads, and what is to be done on the way. Without an idle
/// timeout there is no idle timer, and work is not listened for.
pub open spec fn step(config: Config, before: LoopState, event: EventView) -> (
    LoopState,
    Seq<ActionView>,
) {
    if !before.running {
        (before, Seq::empty())
    } else {
        match event {
            EventView::Accepted => (before, seq![ActionView::Serve]),
            EventView::AcceptFailed(message) => (
                before,
                seq![ActionView::Log("Accept error: "@ + message)],
            ),
            EventView::DrainTick(state) => (before, drain_actions(state)),
            EventView::Drained(failure) => (before, drained_actions(config, failure)),
            EventView::IdleTimer(elapsed, state) => match config.idle_timeout {
                Some(timeout) => idle_step(config.platform, timeout, elapsed, state),
                None => (before, Seq::empty()),
            },
            EventView::Activity => match config.idle_timeout {
                Some(timeout) => rearm(timeout_nanos(timeout.ms)),
                None => (before, Seq::empty()),
            },
            EventView::CloseRequested => (
                LoopState { armed: None, running: false },
                leave(config.platform),
            ),
            EventView::Signal => (
                LoopState { armed: None, running: false },
                wind_down(config.platform),
            ),
        }
    }
}

/// How the loop starts: with the whole idle timeout ahead, if there is one.
pub open spec fn initial(config: Config) -> LoopState {
    LoopState {
        armed: match config.idle_timeout {
            Some(timeout) => Some(timeout_nanos(timeout.ms) as u128),
            None => None,
        },
        running: true,
    }
}

fn push_leave(actions: &mut Vec<Action>, platform: Platform)
    ensures
        action_views(final(actions)@) == action_views(old(actions)@) + leave(platform),
{
    match platform {
        Platform::Unix => {},
        Platform::Windows => {
            actions.push(Action::RemovePortFile);
        },
    }
    actions.push(Action::Exit);
    assert(action_views(actions@) =~= action_views(old(actions)@) + leave(platform));
}

fn push_wind_down(actions: &mut Vec<Action>, platform: Platform)
    ensures
        action_views(final(actions)@) == action_views(old(actions)@) + wind_down(platform),
{
    actions.push(Action::SaveRestoreState);
    actions.push(Action::CloseAllBackends);
    push_leave(actions, platform);
    assert(action_views(actions@) =~= action_views(old(actions)@) + wind_down(platform));
}

/// The daemon's loop.
#[derive(Clone, Copy, Debug, PartialEq, Eq, Structural)]
pub struct ServerLoop {
    pub config: Config,
    pub state: LoopState,
}

impl ServerLoop {
    /// A loop that has just started.
    pub fn new(config: Config) -> (r: ServerLoop)
        ensures
            r.config == config,
            r.state == initial(config),
    {
        let armed: Option<u128> = match config.idle_timeout {
            Some(timeout) => Some(nanos_of_ms(timeout.ms)),
            None => None,
        };
        ServerLoop { config, state: LoopState { armed, running: true } }
    }

    fn arm(&mut self, nanos: u128, actions: &mut Vec<Action>)
        ensures
            final(self).config == old(self).config,
            final(self).state == rearm(nanos as nat).0,
            action_views(final(actions)@) == action_views(old(actions)@) + rearm(nanos as nat).1,
    {
        self.state = LoopState { armed: Some(nanos), running: true };
        actions.push(Action::ArmIdleTimer(nanos));
        assert(action_views(actions@) =~= action_views(old(actions)@) + rearm(nanos as nat).1);
    }

    fn on_idle_timer(&mut self, timeout: IdleTimeout, elapsed: u128, state: DaemonState) -> (r: Vec<
        Action,
    >)
        ensures
            final(self).config == old(self).config,
            (final(self).state, action_views(r@)) == idle_step(
                old(self).config.platform,
                timeout,
                elapsed,
                state,
            ),
    {
        let mut actions: Vec<Action> = Vec::new();
        let limit: u128 = nanos_of_ms(timeout.ms);
        if elapsed <= limit {
            self.arm(limit - elapsed, &mut actions);
        } else if timeout.is_default && state.blocks_default_idle_shutdown() {
            self.arm(limit, &mut actions);
        } else {
            self.state = LoopState { armed: None, running: false };
            if timeout.is_default {
                let mut notice = "Idle for ".to_owned();
                push_decimal(&mut notice, (DEFAULT_IDLE_TIMEOUT_MS / 60_000) as u128);
                notice.append(
                    "m with no commands or dashboard input; saving configured restore state and shutting down (AGENT_BROWSER_IDLE_TIMEOUT_MS=0 disables)",
                );
                actions.push(Action::Log(notice));
            }
            push_wind_down(&mut actions, self.config.platform);
        }
        assert(action_views(actions@) =~= idle_step(
            old(self).config.platform,
            timeout,
            elapsed,
            state,
        ).1);
        actions
    }

    /// Takes an event, and says what is to be done before the next.
    pub fn on_event(&mut self, event: Event) -> (r: Vec<Action>)
        ensures
            final(self).config == old(self).config,
            (final(self).state, action_views(r@)) == step(
                old(self).config,
                old(self).state,
                event@,
            ),
    {
        let ghost expected = step(self.config, self.state, event@).1;
        let mut actions: Vec<Action> = Vec::new();
        if !self.state.running {
            assert(action_views(actions@) =~= expected);
            return actions;
        }
        match event {
            Event::Accepted => {
                actions.push(Action::Serve);
            },
            Event::AcceptFailed(message) => {
                let mut line = "Accept error: ".to_owned();
                line.append(message.as_str());
                actions.push(Action::Log(line));
            },
            Event::DrainTick(state) => {
                match state.browser {
                    Some(browser) => {
                        if browser.process_exited {
                            actions.push(Action::CloseCurrentBrowser);
                        } else {
                            actions.push(Action::DrainEvents);
                        }
                    },
                    None => {},
                }
            },
            Event::Drained(failure) => {
                match failure {
                    Some(message) => {
                        let mut line = "Failed to apply browser network controls: ".to_owned();
                        line.append(message.as_str());
                        actions.push(Action::Log(line));
                    },
                    None => {
                        actions.push(Action::Autosave(self.config.autosave_interval_ms));
                    },
                }
            },
            Event::IdleTimer(elapsed, state) => {
                match self.config.idle_timeout {
                    Some(timeout) => {
                        return self.on_idle_timer(timeout, elapsed, state);
                    },
                    None => {},
                }
            },
            Event::Activity => {
                match self.config.idle_timeout {
                    Some(timeout) => {
                        let nanos: u128 = nanos_of_ms(timeout.ms);
                        self.arm(nanos, &mut actions);
                    },
                    None => {},
                }
            },
            Event::CloseRequested => {
                // The browser was closed by the command already.
                self.state = LoopState { armed: None, running: false };
                push_leave(&mut actions, self.config.platform);
            },
            Event::Signal => {
                self.state = LoopState { armed: None, running: false };
                push_wind_down(&mut actions, self.config.platform);
            },
        }
        assert(action_views(actions@) =~= expected);
        actions
    }
}

/// Where a series of events leads from a state, and all that is done on the
/// way.
pub open spec fn run(config: Config, start: LoopState, events: Seq<EventView>) -> (
    LoopState,
    Seq<ActionView>,
)
    decreases events.len(),
{
    if events.len() == 0 {
        (start, Seq::empty())
    } else {
        let before = run(config, start, events.drop_last());
        let last = step(config, before.0, events.last());
        (last.0, before.1 + last.1)
    }
}

/// Whether the event is about clients or the browser, not about work or the
/// end of the daemon.
pub open spec fn background(event: EventView) -> bool {
    event is Accepted || event is AcceptFailed || event is DrainTick || event is Drained
}

/// Looking after the browser and accepting clients, however often and in
/// whatever order, neither resets the idle timer nor ends the loop: the timer
/// goes off when it would have.
pub proof fn background_work_keeps_the_idle_timer(
    config: Config,
    start: LoopState,
    events: Seq<EventView>,
)
    requires
        forall|i: int| 0 <= i < events.len() ==> background(#[trigger] events[i]),
    ensures
        run(config, start, events).0 == start,
        forall|i: int|
            0 <= i < run(config, start, events).1.len() ==> !(#[trigger] run(
                config,
                start,
                events,
            ).1[i] is ArmIdleTimer),
    decreases events.len(),
{
    if events.len() > 0 {
        let earlier = events.drop_last();
        assert forall|i: int| 0 <= i < earlier.len() implies background(#[trigger] earlier[i]) by {
            assert(earlier[i] == events[i]);
        }
        background_work_keeps_the_idle_timer(config, start, earlier);
        let before = run(config, start, earlier);
        assert(background(events[events.len() - 1]));
        let last = step(config, before.0, events.last());
        let all = run(config, start, events).1;
        assert forall|i: int| 0 <= i < all.len() implies !(#[trigger] all[i] is ArmIdleTimer) by {
            if i < before.1.len() {
                assert(all[i] == before.1[i]);
            } else {
                assert(all[i] == last.1[i - before.1.len()]);
            }
        }
    }
}

/// On every platform alike, a tick closes a browser whose process is gone, and
/// neither drains nor saves then; of one that is still there it drains the
/// events. The loop goes on.
pub proof fn ticks_look_after_the_browser(config: Config, before: LoopState, state: DaemonState)
    requires
        before.running,
    ensures
        ({
            let (after, actions) = step(config, before, EventView::DrainTick(state));
            &&& after == before
            &&& state.browser is None ==> actions == Seq::<ActionView>::empty()
            &&& state.browser matches Some(browser) ==> actions == if browser.process_exited {
                seq![ActionView::CloseCurrentBrowser]
            } else {
                seq![ActionView::DrainEvents]
            }
        }),
{
}

/// On every platform alike, the session is saved exactly after a clean drain,
/// once each time, and a drain that failed is logged. The loop goes on.
pub proof fn saves_follow_clean_drains_only(config: Config, before: LoopState, event: EventView)
    requires
        before.running,
    ensures
        ({
            let (after, actions) = step(config, before, event);
            &&& event == EventView::Drained(None) ==> after == before && actions == seq![
                ActionView::Autosave(config.autosave_interval_ms),
            ]
            &&& event is Drained ==> after == before
            &&& event != EventView::Drained(None) ==> forall|i: int|
                0 <= i < actions.len() ==> !(#[trigger] actions[i] is Autosave)
            &&& event matches EventView::Drained(Some(message)) ==> actions == seq![
                ActionView::Log("Failed to apply browser network controls: "@ + message),
            ]
        }),
{
}

/// The idle timer ends the loop exactly where there is a timeout, it has passed
/// without work, and the timeout is explicit or no human may be at the browser.
pub proof fn idle_timer_ends_the_loop_only_when_due(
    config: Config,
    before: LoopState,
    elapsed: u128,
    state: DaemonState,
)
    requires
        before.running,
    ensures
        !step(config, before, EventView::IdleTimer(elapsed, state)).0.running <==> (
        config.idle_timeout matches Some(timeout) && elapsed > timeout_nanos(timeout.ms) && (
        !timeout.is_default || !state.in_human_reach())),
{
}

/// A timer that went off early is set to the rest of the timeout: it goes off
/// again when the whole timeout has passed since the last work.
pub proof fn early_timer_waits_for_the_rest(
    config: Config,
    before: LoopState,
    elapsed: u128,
    state: DaemonState,
)
    requires
        before.running,
        config.idle_timeout matches Some(timeout) && elapsed <= timeout_nanos(timeout.ms),
    ensures
        ({
            let next = step(config, before, EventView::IdleTimer(elapsed, state)).0;
            next.running && (next.armed matches Some(rest) && elapsed + rest == timeout_nanos(
                config.idle_timeout->0.ms,
            ))
        }),
{
}

/// A command that ends makes an idle period that has passed start over: until
/// all of the timeout has gone by once more, a timer that goes off waits for the
/// rest, and word of the work sets it to the whole timeout.
pub proof fn a_command_that_ends_restarts_the_idle_period(
    config: Config,
    before: LoopState,
    marked: u128,
    now: u128,
    state: DaemonState,
)
    requires
        before.running,
        marked <= now,
        config.idle_timeout matches Some(timeout) && now - marked <= timeout_nanos(timeout.ms),
    ensures
        ({
            let activity = IdleActivity { last_mark: marked, pending: true };
            let elapsed = activity.spec_elapsed(now) as u128;
            let whole = timeout_nanos(config.idle_timeout->0.ms);
            &&& step(config, before, EventView::IdleTimer(elapsed, state)) == rearm(
                (whole - (now - marked)) as nat,
            )
            &&& step(config, before, EventView::Activity) == rearm(whole)
        }),
{
}

/// Whether the event is the end of the daemon by itself.
pub open spec fn ending(event: EventView) -> bool {
    event is CloseRequested || event is Signal
}

/// Without an idle timeout nothing but a close or a signal ends the loop.
pub proof fn without_timeout_the_loop_goes_on(config: Config, events: Seq<EventView>)
    requires
        config.idle_timeout is None,
        forall|i: int| 0 <= i < events.len() ==> !ending(#[trigger] events[i]),
    ensures
        run(config, initial(config), events).0 == initial(config),
        initial(config).running && initial(config).armed is None,
    decreases events.len(),
{
    if events.len() > 0 {
        let earlier = events.drop_last();
        assert forall|i: int| 0 <= i < earlier.len() implies !ending(#[trigger] earlier[i]) by {
            assert(earlier[i] == events[i]);
        }
        without_timeout_the_loop_goes_on(config, earlier);
        assert(!ending(events[events.len() - 1]));
    }
}

/// Under the default timeout nothing but a close or a signal ends the loop as
/// long as a human may be at the browser, and the idle timer keeps running.
pub proof fn default_timeout_spares_human_sessions(config: Config, events: Seq<EventView>)
    requires
        config.idle_timeout matches Some(timeout) && timeout.is_default,
        forall|i: int| 0 <= i < events.len() ==> !ending(#[trigger] events[i]),
        forall|i: int|
            0 <= i < events.len() ==> (#[trigger] events[i] matches EventView::IdleTimer(_, state)
                ==> state.in_human_reach()),
    ensures
        run(config, initial(config), events).0.running,
        run(config, initial(config), events).0.armed is Some,
    decreases events.len(),
{
    if events.len() > 0 {
        let earlier = events.drop_last();
        assert forall|i: int| 0 <= i < earlier.len() implies !ending(#[trigger] earlier[i]) by {
            assert(earlier[i] == events[i]);
        }
        assert forall|i: int| 0 <= i < earlier.len() implies (
        #[trigger] earlier[i] matches EventView::IdleTimer(_, state) ==> state.in_human_reach()) by {
            assert(earlier[i] == events[i]);
        }
        default_timeout_spares_human_sessions(config, earlier);
        assert(!ending(events[events.len() - 1]));
    }
}

/// However the loop ends, leaving it is its last action. Unless the browser was
/// closed by a command already, the session is saved first, and then every
/// browser is closed. On Windows the port file goes just before the end, and
/// nowhere else is there one to remove.
pub proof fn leaving_is_orderly(config: Config, before: LoopState, event: EventView)
    requires
        before.running,
        !step(config, before, event).0.running,
    ensures
        ({
            let actions = step(config, before, event).1;
            let n = actions.len() as int;
            &&& n >= 1 && actions[n - 1] is Exit
            &&& config.platform == Platform::Windows ==> n >= 2 && actions[n - 2] is RemovePortFile
            &&& config.platform == Platform::Unix ==> forall|i: int|
                0 <= i < n ==> !(#[trigger] actions[i] is RemovePortFile)
            &&& !(event is CloseRequested) ==> {
                let k = n - leave(config.platform).len();
                k >= 2 && actions[k - 2] is SaveRestoreState && actions[k - 1] is CloseAllBackends
            }
        }),
{
}

/// The loop is left at most once: it has been left exactly where it runs no
/// more, and from then on nothing is done.
pub proof fn the_loop_is_left_once(config: Config, events: Seq<EventView>, later: EventView)
    ensures
        ({
            let (state, actions) = run(config, initial(config), events);
            &&& actions.contains(ActionView::Exit) <==> !state.running
            &&& !state.running ==> step(config, state, later) == (
                state,
                Seq::<ActionView>::empty(),
            )
        }),
    decreases events.len(),
{
    if events.len() > 0 {
        let earlier = events.drop_last();
        the_loop_is_left_once(config, earlier, later);
        let before = run(config, initial(config), earlier);
        let last = step(config, before.0, events.last());
        let all = before.1 + last.1;
        if before.0.running && !last.0.running {
            leaving_is_orderly(config, before.0, events.last());
            assert(all[all.len() - 1] == ActionView::Exit);
        }
        if !before.0.running {
            assert(all =~= before.1);
        }
        if last.0.running && all.contains(ActionView::Exit) {
            let k = choose|k: int| 0 <= k < all.len() && all[k] == ActionView::Exit;
            if k < before.1.len() {
                assert(before.1[k] == ActionView::Exit);
            } else {
                assert(last.1[k - before.1.len()] == ActionView::Exit);
            }
        }
    }
}

/// A client that connects while the loop runs is served, whatever the loop is
/// set up with and however its timer stands, and nothing else comes of it.
pub proof fn every_client_is_served(config: Config, before: LoopState)
    requires
        before.running,
    ensures
        step(config, before, EventView::Accepted) == (before, seq![ActionView::Serve]),
{
}

/// A client that could not be accepted is logged, and the loop goes on.
pub proof fn failed_clients_are_logged(config: Config, before: LoopState, message: Seq<char>)
    requires
        before.running,
    ensures
        step(config, before, EventView::AcceptFailed(message)) == (
            before,
            seq![ActionView::Log("Accept error: "@ + message)],
        ),
{
}

/// Work sets the timer to the whole timeout, a million nanoseconds for each of
/// its milliseconds, where there is one, and to nothing where there is none. So
/// it stands at the start.
pub proof fn work_sets_the_timer_anew(config: Config, before: LoopState)
    requires
        before.running,
    ensures
        initial(config).running,
        match config.idle_timeout {
            Some(timeout) => {
                let whole = (1_000_000 * timeout.ms) as u128;
                &&& initial(config).armed == Some(whole)
                &&& step(config, before, EventView::Activity) == (
                    LoopState { armed: Some(whole), running: true },
                    seq![ActionView::ArmIdleTimer(whole)],
                )
            },
            None => {
                &&& initial(config).armed is None
                &&& step(config, before, EventView::Activity) == (
                    before,
                    Seq::<ActionView>::empty(),
                )
            },
        },
{
}

/// A timer that goes off before the timeout has passed without work is set to
/// the rest, and nothing else is done.
pub proof fn early_timers_are_set_to_the_rest(
    config: Config,
    before: LoopState,
    elapsed: u128,
    state: DaemonState,
    rest: u128,
)
    requires
        before.running,
        config.idle_timeout matches Some(timeout) && elapsed + rest == 1_000_000 * timeout.ms,
    ensures
        step(config, before, EventView::IdleTimer(elapsed, state)) == (
            LoopState { armed: Some(rest), running: true },
            seq![ActionView::ArmIdleTimer(rest)],
        ),
{
}

/// Once the default timeout has passed, a daemon that drives WebDriver, a browser
/// of the user's own or one with a window waits for all of it once more.
pub proof fn human_sessions_outlive_the_default(
    config: Config,
    before: LoopState,
    elapsed: u128,
    state: DaemonState,
)
    requires
        before.running,
        config.idle_timeout matches Some(timeout) && timeout.is_default && elapsed > 1_000_000
            * timeout.ms,
        state.backend_type == BackendType::WebDriver || (state.browser matches Some(browser) && (
        browser.origin == BrowserOrigin::Attached || browser.origin == (BrowserOrigin::Launched {
            headed: true,
        }))),
    ensures
        ({
            let whole = (1_000_000 * config.idle_timeout->0.ms) as u128;
            step(config, before, EventView::IdleTimer(elapsed, state)) == (
                LoopState { armed: Some(whole), running: true },
                seq![ActionView::ArmIdleTimer(whole)],
            )
        }),
{
}

/// Once an explicit timeout has passed, the session is saved, every browser is
/// closed and the loop is left, whoever may be at the browser. So it is once the
/// default has passed, unless a human may be there, and then it is announced.
pub proof fn idle_daemons_wind_down(
    config: Config,
    before: LoopState,
    elapsed: u128,
    state: DaemonState,
)
    requires
        before.running,
        config.idle_timeout matches Some(timeout) && elapsed > 1_000_000 * timeout.ms && (
        timeout.is_default ==> state.backend_type == BackendType::Cdp && (
        state.browser matches Some(browser) ==> browser.origin == BrowserOrigin::Provider
            || browser.origin == (BrowserOrigin::Launched { headed: false }))),
    ensures
        ({
            let (after, actions) = step(config, before, EventView::IdleTimer(elapsed, state));
            let announced = if config.idle_timeout->0.is_default {
                seq![ActionView::Log(idle_notice())]
            } else {
                Seq::empty()
            };
            &&& after == LoopState { armed: None, running: false }
            &&& actions == announced + seq![
                ActionView::SaveRestoreState,
                ActionView::CloseAllBackends,
            ] + if config.platform == Platform::Windows {
                seq![ActionView::RemovePortFile, ActionView::Exit]
            } else {
                seq![ActionView::Exit]
            }
        }),
{
    let actions = step(config, before, EventView::IdleTimer(elapsed, state)).1;
    let announced = if config.idle_timeout->0.is_default {
        seq![ActionView::Log(idle_notice())]
    } else {
        Seq::empty()
    };
    assert(actions =~= announced + seq![
        ActionView::SaveRestoreState,
        ActionView::CloseAllBackends,
    ] + if config.platform == Platform::Windows {
        seq![ActionView::RemovePortFile, ActionView::Exit]
    } else {
        seq![ActionView::Exit]
    });
}

/// The announcement says how many minutes the default is.
pub proof fn the_announcement_says_sixty_minutes()
    ensures
        idle_notice() == "Idle for 60m with no commands or dashboard input; saving configured restore state and shutting down (AGENT_BROWSER_IDLE_TIMEOUT_MS=0 disables)"@,
{
    reveal_with_fuel(decimal, 3);
    assert(DEFAULT_IDLE_TIMEOUT_MS / 60_000 == 60);
    assert(decimal(60) =~= seq!['6', '0']);
    reveal_strlit("Idle for ");
    reveal_strlit(
        "m with no commands or dashboard input; saving configured restore state and shutting down (AGENT_BROWSER_IDLE_TIMEOUT_MS=0 disables)",
    );
    reveal_strlit(
        "Idle for 60m with no commands or dashboard input; saving configured restore state and shutting down (AGENT_BROWSER_IDLE_TIMEOUT_MS=0 disables)",
    );
    assert(idle_notice()
        =~= "Idle for 60m with no commands or dashboard input; saving configured restore state and shutting down (AGENT_BROWSER_IDLE_TIMEOUT_MS=0 disables)"@);
}

/// A client that closed the browser ends the loop with nothing more to save or to
/// close; a signal ends it with both. On Windows the port file goes first.
pub proof fn closes_and_signals_end_the_loop(config: Config, before: LoopState)
    requires
        before.running,
    ensures
        ({
            let end = LoopState { armed: None, running: false };
            let last = if config.platform == Platform::Windows {
                seq![ActionView::RemovePortFile, ActionView::Exit]
            } else {
                seq![ActionView::Exit]
            };
            &&& step(config, before, EventView::CloseRequested) == (end, last)
            &&& step(config, before, EventView::Signal) == (
                end,
                seq![ActionView::SaveRestoreState, ActionView::CloseAllBackends] + last,
            )
        }),
{
}

/// Without a timeout a timer changes nothing, and once the loop is left nothing
/// does.
pub proof fn what_does_not_run_does_nothing(config: Config, before: LoopState, event: EventView)
    requires
        !before.running || (config.idle_timeout is None && event is IdleTimer),
    ensures
        step(config, before, event) == (before, Seq::<ActionView>::empty()),
{
}

} // verus!
