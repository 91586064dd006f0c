use agent_browser_daemon::idle::{
    nanos_of_ms, remaining_idle_timeout, resolve_idle_timeout, IdleActivity,
    DEFAULT_IDLE_TIMEOUT_MS,
};
use agent_browser_daemon::state::{BackendType, Browser, BrowserOrigin, DaemonState};

#[test]
fn test_resolve_idle_timeout_unset_applies_default() {
    let t = resolve_idle_timeout(None).expect("default should apply when unset");
    assert_eq!(t.ms, DEFAULT_IDLE_TIMEOUT_MS);
    assert!(t.is_default);
}

#[test]
fn test_resolve_idle_timeout_explicit_zero_disables() {
    assert!(resolve_idle_timeout(Some("0".to_string())).is_none());
    assert!(resolve_idle_timeout(Some(" 0 ".to_string())).is_none());
}

#[test]
fn test_resolve_idle_timeout_explicit_value_is_not_default() {
    let t = resolve_idle_timeout(Some("5000".to_string())).expect("explicit value");
    assert_eq!(t.ms, 5000);
    assert!(!t.is_default);
}

#[test]
fn test_resolve_idle_timeout_unparseable_falls_back_to_default() {
    for raw in ["banana", "", "-1", "30s"] {
        let t = resolve_idle_timeout(Some(raw.to_string()))
            .unwrap_or_else(|| panic!("{:?} should fall back to default", raw));
        assert_eq!(t.ms, DEFAULT_IDLE_TIMEOUT_MS);
        assert!(t.is_default);
    }
}

#[test]
fn explicit_values_are_read_as_numbers() {
    assert_eq!(resolve_idle_timeout(Some("+7".to_string())).unwrap().ms, 7);
    assert_eq!(resolve_idle_timeout(Some("007".to_string())).unwrap().ms, 7);
    assert_eq!(
        resolve_idle_timeout(Some("\u{2003}12\t\n".to_string())).unwrap().ms,
        12
    );
    let largest = resolve_idle_timeout(Some("18446744073709551615".to_string())).unwrap();
    assert_eq!(largest.ms, u64::MAX);
    assert!(!largest.is_default);
    assert!(
        resolve_idle_timeout(Some("18446744073709551616".to_string()))
            .unwrap()
            .is_default
    );
    // Zero however it is written.
    assert!(resolve_idle_timeout(Some("+000".to_string())).is_none());
    // The default's own value, asked for, is no default.
    assert!(
        !resolve_idle_timeout(Some("3600000".to_string()))
            .unwrap()
            .is_default
    );
}

#[test]
fn test_default_idle_timeout_does_not_close_webdriver_sessions() {
    let mut state = DaemonState::new();
    assert!(!state.blocks_default_idle_shutdown());

    state.backend_type = BackendType::WebDriver;
    assert!(state.blocks_default_idle_shutdown());
}

#[test]
fn default_idle_timeout_spares_browsers_in_human_use() {
    let with = |origin: BrowserOrigin| DaemonState {
        backend_type: BackendType::Cdp,
        browser: Some(Browser {
            origin,
            process_exited: false,
        }),
    };
    assert!(with(BrowserOrigin::Launched { headed: true }).blocks_default_idle_shutdown());
    assert!(with(BrowserOrigin::Attached).blocks_default_idle_shutdown());
    assert!(!with(BrowserOrigin::Launched { headed: false }).blocks_default_idle_shutdown());
    assert!(!with(BrowserOrigin::Provider).blocks_default_idle_shutdown());
}

#[test]
fn test_idle_activity_receives_dashboard_activity() {
    let mut activity = IdleActivity::new(0);
    assert!(!activity.take_notification());
    activity.mark(5);
    assert!(activity.take_notification());
    assert!(!activity.take_notification());
}

#[test]
fn test_command_completion_rearms_expired_idle_timeout() {
    let mut activity = IdleActivity::new(0);
    let now = nanos_of_ms(10);
    assert!(
        remaining_idle_timeout(&activity, now, 1).is_none(),
        "the original idle deadline should have expired"
    );

    // A command that held the daemon state lock past the deadline marks
    // completion before releasing the lock. The timeout path must then
    // wait for a new full idle period instead of closing immediately.
    activity.mark(now);
    assert!(remaining_idle_timeout(&activity, now, 100).is_some());
}

#[test]
fn remaining_idle_time_counts_down_to_none() {
    let activity = IdleActivity::new(1_000);
    assert_eq!(remaining_idle_timeout(&activity, 1_000, 2), Some(2_000_000));
    assert_eq!(remaining_idle_timeout(&activity, 1_001, 2), Some(1_999_999));
    assert_eq!(remaining_idle_timeout(&activity, 2_001_000, 2), Some(0));
    assert_eq!(remaining_idle_timeout(&activity, 2_001_001, 2), None);
    // A clock that reads earlier than the mark counts as no time at all.
    assert_eq!(remaining_idle_timeout(&activity, 0, 2), Some(2_000_000));
    assert_eq!(activity.elapsed(1_700), 700);
    assert_eq!(
        nanos_of_ms(u64::MAX),
        18_446_744_073_709_551_615_u128 * 1_000_000
    );
}
