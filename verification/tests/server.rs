use agent_browser_daemon::idle::{
    nanos_of_ms, resolve_idle_timeout, IdleActivity, IdleTimeout,
};
use agent_browser_daemon::server::{
    Action, Config, Event, Platform, ServerLoop, DRAIN_INTERVAL_MS,
};
use agent_browser_daemon::state::{BackendType, Browser, BrowserOrigin, DaemonState};

fn config(platform: Platform, idle_timeout: Option<IdleTimeout>) -> Config {
    Config {
        platform,
        idle_timeout,
        autosave_interval_ms: 30_000,
    }
}

fn explicit(ms: u64) -> Option<IdleTimeout> {
    resolve_idle_timeout(Some(ms.to_string()))
}

fn with_browser(origin: BrowserOrigin, process_exited: bool) -> DaemonState {
    DaemonState {
        backend_type: BackendType::Cdp,
        browser: Some(Browser {
            origin,
            process_exited,
        }),
    }
}

#[test]
fn test_idle_timeout_fires_despite_drain_interval() {
    let idle_timeout_ms: u64 = 1000;
    let mut server = ServerLoop::new(config(Platform::Unix, explicit(idle_timeout_ms)));
    assert_eq!(server.state.armed, Some(nanos_of_ms(idle_timeout_ms)));
    for _ in 0..20 {
        // The timer that runs is left alone.
        let actions = server.on_event(Event::DrainTick(DaemonState::new()));
        assert!(actions.is_empty());
        assert_eq!(server.state.armed, Some(nanos_of_ms(idle_timeout_ms)));
    }
    let elapsed = nanos_of_ms(idle_timeout_ms) + 1;
    let actions = server.on_event(Event::IdleTimer(elapsed, DaemonState::new()));
    assert_eq!(
        actions,
        vec![
            Action::SaveRestoreState,
            Action::CloseAllBackends,
            Action::Exit
        ]
    );
    assert!(!server.state.running);
    assert_eq!(DRAIN_INTERVAL_MS, 500);
}

#[test]
fn an_early_timer_waits_for_the_rest() {
    let mut server = ServerLoop::new(config(Platform::Unix, explicit(100)));
    assert_eq!(
        server.on_event(Event::IdleTimer(nanos_of_ms(40), DaemonState::new())),
        vec![Action::ArmIdleTimer(nanos_of_ms(60))]
    );
    assert_eq!(
        server.on_event(Event::IdleTimer(nanos_of_ms(100), DaemonState::new())),
        vec![Action::ArmIdleTimer(0)]
    );
    assert_eq!(
        server.on_event(Event::Activity),
        vec![Action::ArmIdleTimer(nanos_of_ms(100))]
    );
    assert!(server.state.running);
}

#[test]
fn the_default_timeout_spares_browsers_in_human_use() {
    let timeout = resolve_idle_timeout(None);
    let hour = nanos_of_ms(3_600_000);
    let mut server = ServerLoop::new(config(Platform::Unix, timeout));
    for state in [
        with_browser(BrowserOrigin::Launched { headed: true }, false),
        with_browser(BrowserOrigin::Attached, false),
        DaemonState {
            backend_type: BackendType::WebDriver,
            browser: None,
        },
    ] {
        assert_eq!(
            server.on_event(Event::IdleTimer(hour + 1, state)),
            vec![Action::ArmIdleTimer(hour)]
        );
    }
    assert_eq!(
        server.on_event(Event::IdleTimer(
            hour + 1,
            with_browser(BrowserOrigin::Provider, false)
        )),
        vec![
            Action::Log(
                "Idle for 60m with no commands or dashboard input; saving configured restore \
                 state and shutting down (AGENT_BROWSER_IDLE_TIMEOUT_MS=0 disables)"
                    .to_string()
            ),
            Action::SaveRestoreState,
            Action::CloseAllBackends,
            Action::Exit,
        ]
    );
    // An explicit timeout spares none of them.
    let mut server = ServerLoop::new(config(Platform::Unix, explicit(1)));
    server.on_event(Event::IdleTimer(
        nanos_of_ms(2),
        with_browser(BrowserOrigin::Attached, false),
    ));
    assert!(!server.state.running);
}

#[test]
fn without_a_timeout_there_is_no_timer() {
    let mut server = ServerLoop::new(config(
        Platform::Unix,
        resolve_idle_timeout(Some("0".to_string())),
    ));
    assert_eq!(server.state.armed, None);
    assert!(server.on_event(Event::Activity).is_empty());
    assert!(server
        .on_event(Event::IdleTimer(u128::MAX, DaemonState::new()))
        .is_empty());
    assert!(server.state.running);
}

#[test]
fn the_browser_is_looked_after() {
    let mut server = ServerLoop::new(config(Platform::Unix, None));
    let alive = with_browser(BrowserOrigin::Launched { headed: false }, false);
    let gone = with_browser(BrowserOrigin::Launched { headed: false }, true);
    assert_eq!(
        server.on_event(Event::DrainTick(gone)),
        vec![Action::CloseCurrentBrowser]
    );
    assert_eq!(
        server.on_event(Event::DrainTick(alive)),
        vec![Action::DrainEvents]
    );
    assert_eq!(
        server.on_event(Event::Drained(None)),
        vec![Action::Autosave(30_000)]
    );
    assert_eq!(
        server.on_event(Event::Drained(Some("no".to_string()))),
        vec![Action::Log(
            "Failed to apply browser network controls: no".to_string()
        )]
    );
    let mut windows = ServerLoop::new(config(Platform::Windows, None));
    assert_eq!(
        windows.on_event(Event::Drained(Some("no".to_string()))),
        vec![Action::Log(
            "Failed to apply browser network controls: no".to_string()
        )]
    );
    assert_eq!(
        windows.on_event(Event::Drained(None)),
        vec![Action::Autosave(30_000)]
    );
}

#[test]
fn connections_are_served_and_failures_logged() {
    let mut server = ServerLoop::new(config(Platform::Unix, None));
    assert_eq!(server.on_event(Event::Accepted), vec![Action::Serve]);
    assert_eq!(
        server.on_event(Event::AcceptFailed("too many".to_string())),
        vec![Action::Log("Accept error: too many".to_string())]
    );
}

#[test]
fn the_loop_is_left_in_order_and_once() {
    let mut unix = ServerLoop::new(config(Platform::Unix, None));
    assert_eq!(unix.on_event(Event::CloseRequested), vec![Action::Exit]);
    assert!(unix.on_event(Event::Signal).is_empty());
    let mut windows = ServerLoop::new(config(Platform::Windows, None));
    assert_eq!(
        windows.on_event(Event::Signal),
        vec![
            Action::SaveRestoreState,
            Action::CloseAllBackends,
            Action::RemovePortFile,
            Action::Exit,
        ]
    );
    assert!(windows.on_event(Event::Accepted).is_empty());
    let mut windows = ServerLoop::new(config(Platform::Windows, None));
    assert_eq!(
        windows.on_event(Event::CloseRequested),
        vec![Action::RemovePortFile, Action::Exit]
    );
}

#[test]
fn a_command_that_ends_restarts_the_idle_period() {
    let ms = 1000;
    let whole = nanos_of_ms(ms);
    let mut activity = IdleActivity::new(0);
    let marked = 5 * whole;
    // The timeout has passed; a command ends just then.
    assert!(activity.elapsed(marked) > whole);
    activity.mark(marked);
    for span in [0, 1, whole - 1, whole] {
        let mut server = ServerLoop::new(config(Platform::Unix, explicit(ms)));
        let elapsed = activity.elapsed(marked + span);
        assert_eq!(
            server.on_event(Event::IdleTimer(elapsed, DaemonState::new())),
            vec![Action::ArmIdleTimer(whole - span)]
        );
        assert_eq!(
            server.on_event(Event::Activity),
            vec![Action::ArmIdleTimer(whole)]
        );
        assert_eq!(server.state.armed, Some(whole));
    }
    let mut server = ServerLoop::new(config(Platform::Unix, explicit(ms)));
    let elapsed = activity.elapsed(marked + whole + 1);
    server.on_event(Event::IdleTimer(elapsed, DaemonState::new()));
    assert!(!server.state.running);
}
