use agent_browser_daemon::lifecycle::{
    after_stream_start, after_tcp_bind, autosave_interval_ms_from_env, bind_failure,
    handler_complaint, listening_endpoints, preferred_stream_port, session_file_name,
    shutdown_plan, startup_plan, state_expire_days, stream_file_complaint, Endpoint, SessionFile,
    Step,
};
use agent_browser_daemon::server::Platform;

fn text(s: &str) -> Option<String> {
    Some(s.to_string())
}

#[test]
fn settings_are_read_from_the_environment() {
    assert_eq!(autosave_interval_ms_from_env(None), 30_000);
    assert_eq!(autosave_interval_ms_from_env(text("soon")), 30_000);
    assert_eq!(autosave_interval_ms_from_env(text(" 5")), 30_000);
    assert_eq!(autosave_interval_ms_from_env(text("0")), 0);
    assert_eq!(autosave_interval_ms_from_env(text("1500")), 1500);
    assert_eq!(preferred_stream_port(None), 0);
    assert_eq!(preferred_stream_port(text("9223")), 9223);
    assert_eq!(preferred_stream_port(text("65536")), 0);
    assert_eq!(state_expire_days(None), None);
    assert_eq!(state_expire_days(text("0")), None);
    assert_eq!(state_expire_days(text("x")), None);
    assert_eq!(state_expire_days(text("30")), Some(30));
}

#[test]
fn files_are_named_after_the_session() {
    let names: Vec<String> = [
        SessionFile::Log,
        SessionFile::Pid,
        SessionFile::Version,
        SessionFile::Sock,
        SessionFile::Port,
        SessionFile::Stream,
        SessionFile::Engine,
        SessionFile::Provider,
        SessionFile::Extensions,
    ]
    .into_iter()
    .map(|file| session_file_name("s", file))
    .collect();
    assert_eq!(
        names,
        [
            "s.log",
            "s.pid",
            "s.version",
            "s.sock",
            "s.port",
            "s.stream",
            "s.engine",
            "s.provider",
            "s.extensions"
        ]
    );
}

#[test]
fn startup_on_unix() {
    assert_eq!(
        startup_plan(Platform::Unix, "work", true, 42, "1.2.3", Some(7), 9223),
        vec![
            Step::CreateDirectory,
            Step::LogToFile(
                SessionFile::Log,
                "[daemon] Debug logging started for session: work".to_string()
            ),
            Step::Write(SessionFile::Pid, "42".to_string()),
            Step::Write(SessionFile::Version, "1.2.3".to_string()),
            Step::Remove(SessionFile::Sock),
            Step::Remove(SessionFile::Stream),
            Step::Remove(SessionFile::Engine),
            Step::Remove(SessionFile::Provider),
            Step::Remove(SessionFile::Extensions),
            Step::CleanStates(7),
            Step::StartStream(9223),
        ]
    );
    let quiet = startup_plan(Platform::Unix, "work", false, 42, "1.2.3", None, 0);
    assert_eq!(quiet[1], Step::DiscardLog);
    assert_eq!(quiet.last(), Some(&Step::StartStream(0)));
    assert_eq!(quiet.len(), 10);
}

#[test]
fn startup_on_windows() {
    let plan = startup_plan(Platform::Windows, "work", true, 1, "0", None, 0);
    assert_eq!(plan[1], Step::Write(SessionFile::Pid, "1".to_string()));
    assert_eq!(plan[3], Step::Remove(SessionFile::Port));
    assert_eq!(plan.len(), 9);
}

#[test]
fn the_stream_server_is_announced_or_its_failure_logged() {
    assert_eq!(
        after_stream_start(Ok(9223)),
        Step::Write(SessionFile::Stream, "9223".to_string())
    );
    assert_eq!(
        after_stream_start(Err("busy".to_string())),
        Step::Log("Stream server failed to start: busy".to_string())
    );
    assert_eq!(
        stream_file_complaint("denied"),
        "Failed to write .stream file: denied"
    );
}

#[test]
fn shutdown_takes_the_files_away() {
    let removed = |platform| {
        shutdown_plan(platform, Ok(()))
            .into_iter()
            .map(|step| match step {
                Step::Remove(file) => file,
                other => panic!("{other:?}"),
            })
            .collect::<Vec<_>>()
    };
    assert_eq!(
        removed(Platform::Unix),
        vec![
            SessionFile::Sock,
            SessionFile::Pid,
            SessionFile::Version,
            SessionFile::Stream,
            SessionFile::Engine,
            SessionFile::Provider,
            SessionFile::Extensions,
        ]
    );
    assert_eq!(removed(Platform::Windows)[0], SessionFile::Port);
    let failed = shutdown_plan(Platform::Unix, Err("bad".to_string()));
    assert_eq!(failed[7], Step::Log("Daemon error: bad".to_string()));
    assert_eq!(failed[8], Step::Exit(1));
    assert_eq!(failed.len(), 9);
}

#[test]
fn a_daemon_listens_where_its_clients_look() {
    assert_eq!(
        listening_endpoints(Platform::Unix, "default"),
        vec![Endpoint::Socket]
    );
    assert_eq!(
        listening_endpoints(Platform::Windows, "default"),
        vec![
            Endpoint::Tcp("127.0.0.1:50838".to_string()),
            Endpoint::Tcp("127.0.0.1:0".to_string()),
        ]
    );
    assert_eq!(
        bind_failure(Platform::Unix, "in use"),
        "Failed to bind socket: in use"
    );
    assert_eq!(
        bind_failure(Platform::Windows, "in use"),
        "Failed to bind TCP: in use"
    );
    assert_eq!(
        after_tcp_bind(Ok(50838)),
        Ok(Step::Write(SessionFile::Port, "50838".to_string()))
    );
    assert_eq!(
        after_tcp_bind(Err("gone".to_string())),
        Err("Failed to get local address: gone".to_string())
    );
    assert_eq!(
        handler_complaint("SIGINT", "no"),
        "Failed to install SIGINT handler: no"
    );
}
