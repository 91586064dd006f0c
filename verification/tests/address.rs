use agent_browser_daemon::address::{
    get_daemon_socket_dir, get_port_for_session, slug_of_namespace,
};

#[test]
fn test_port_matches_client_algorithm() {
    assert_eq!(get_port_for_session("default"), 50838);
    assert_eq!(get_port_for_session("my-session"), 63105);
    assert_eq!(get_port_for_session("work"), 51184);
    assert_eq!(get_port_for_session(""), 49152);
}

#[test]
fn ports_stay_in_the_dynamic_range() {
    for session in ["a", "zzzzzzzzzzzzzzzz", "\u{10ffff}\u{10ffff}", "名前"] {
        let port = get_port_for_session(session);
        assert!((49152..=65534).contains(&port), "{session}: {port}");
    }
    // One character adds its code.
    assert_eq!(get_port_for_session("a"), 49152 + 97);
    assert_eq!(get_port_for_session("ab"), 49152 + 97 * 31 + 98);
}

fn socket_dir(
    socket_dir: Option<&str>,
    runtime_dir: Option<&str>,
    namespace: Option<&str>,
    home: Option<&str>,
) -> String {
    get_daemon_socket_dir(
        socket_dir.map(str::to_string),
        runtime_dir.map(str::to_string),
        namespace.map(str::to_string),
        home.map(str::to_string),
        "/tmp",
    )
}

#[test]
fn test_daemon_socket_dir_matches_client_namespace() {
    let dir = tempfile::tempdir().unwrap();
    let base = dir.path().to_str().unwrap();
    let found = socket_dir(Some(base), None, Some("Worktree: One"), None);
    assert!(std::path::Path::new(&found).ends_with(
        std::path::PathBuf::from("namespaces")
            .join("worktree-one")
            .join("run")
    ));
    assert_eq!(found, format!("{base}/namespaces/worktree-one/run"));
}

#[test]
fn socket_dir_falls_back() {
    assert_eq!(socket_dir(Some("/s"), Some("/r"), None, Some("/h")), "/s");
    assert_eq!(
        socket_dir(None, Some("/r"), None, Some("/h")),
        "/r/agent-browser"
    );
    assert_eq!(
        socket_dir(Some(""), Some(""), None, Some("/h")),
        "/h/.agent-browser"
    );
    assert_eq!(socket_dir(None, None, None, None), "/tmp/agent-browser");
    assert_eq!(socket_dir(Some("/s"), None, Some(" : "), None), "/s");
    assert_eq!(slug_of_namespace("Worktree: One"), "worktree-one");
}
