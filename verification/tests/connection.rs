use agent_browser_daemon::connection::{Action, Connection, Event, Phase, CLOSE_PAUSE_MS};
use agent_browser_daemon::json::Json;

fn json(text: &str) -> Json {
    Json::parse(text).unwrap()
}

#[test]
fn a_command_is_executed_under_lock_and_answered() {
    let mut connection = Connection::new(false);
    let actions = connection.on_event(Event::Line("{\"action\":\"url\"}\n".to_string()));
    assert_eq!(
        actions,
        vec![
            Action::MarkActivity,
            Action::LockState,
            Action::Execute(json("{\"action\":\"url\"}")),
        ]
    );
    let actions = connection.on_event(Event::Executed(json("{\"success\":true}")));
    assert_eq!(
        actions,
        vec![
            Action::MarkActivity,
            Action::UnlockState,
            Action::Send("{\"success\":true}\n".to_string()),
        ]
    );
    assert_eq!(
        connection.on_event(Event::Sent(true)),
        vec![Action::ReadLine]
    );
    assert_eq!(connection.phase, Phase::Reading);
}

#[test]
fn a_completed_close_notifies_the_daemon() {
    for stream_file in [false, true] {
        let mut connection = Connection::new(stream_file);
        connection.on_event(Event::Line("{\"action\":\"close\"}".to_string()));
        connection.on_event(Event::Executed(json(
            "{\"success\":true,\"data\":{\"closed\":true}}",
        )));
        let mut expected = Vec::new();
        if stream_file {
            expected.push(Action::RemoveStreamFile);
        }
        expected.push(Action::Pause(CLOSE_PAUSE_MS));
        expected.push(Action::NotifyClose);
        expected.push(Action::HangUp);
        assert_eq!(connection.on_event(Event::Sent(true)), expected);
        // Nothing follows.
        assert_eq!(connection.phase, Phase::Closed);
        assert!(connection
            .on_event(Event::Line("{\"action\":\"url\"}".to_string()))
            .is_empty());
    }
    assert_eq!(CLOSE_PAUSE_MS, 100);
}

#[test]
fn a_close_that_did_not_happen_keeps_the_daemon() {
    let mut connection = Connection::new(true);
    connection.on_event(Event::Line("{\"action\":\"close\"}".to_string()));
    connection.on_event(Event::Executed(json("{\"success\":false}")));
    assert_eq!(
        connection.on_event(Event::Sent(true)),
        vec![Action::ReadLine]
    );
}

#[test]
fn a_close_whose_answer_was_lost_only_hangs_up() {
    let mut connection = Connection::new(true);
    connection.on_event(Event::Line("{\"action\":\"close\"}".to_string()));
    connection.on_event(Event::Executed(json(
        "{\"success\":true,\"data\":{\"closed\":true}}",
    )));
    assert_eq!(
        connection.on_event(Event::Sent(false)),
        vec![Action::HangUp]
    );
}

#[test]
fn input_that_is_no_command() {
    let mut connection = Connection::new(false);
    assert_eq!(
        connection.on_event(Event::Line("  \n".to_string())),
        vec![Action::ReadLine]
    );
    let message = serde_json::from_str::<serde_json::Value>("nope")
        .unwrap_err()
        .to_string();
    assert_eq!(
        connection.on_event(Event::Line("nope\n".to_string())),
        vec![
            Action::SendQuietly(format!(
                "{{\"error\":\"Invalid JSON: {message}\",\"success\":false}}\n"
            )),
            Action::ReadLine,
        ]
    );
    assert_eq!(connection.phase, Phase::Reading);
    assert_eq!(
        connection.on_event(Event::Line("POST / HTTP/1.1\r\n".to_string())),
        vec![Action::HangUp]
    );
    assert_eq!(connection.phase, Phase::Closed);
}

#[test]
fn the_end_of_input_hangs_up() {
    for event in [Event::EndOfInput, Event::ReadFailed] {
        let mut connection = Connection::new(false);
        assert_eq!(connection.on_event(event), vec![Action::HangUp]);
        assert_eq!(connection.phase, Phase::Closed);
    }
}

#[test]
fn failed_commands_let_go_of_the_state_and_the_connection_serves_on() {
    let mut connection = Connection::new(true);
    for response in [
        "{\"success\":false,\"error\":\"no\"}",
        "{\"success\":true}",
        "null",
        "{\"success\":false,\"data\":{\"closed\":true}}",
    ] {
        let actions = connection.on_event(Event::Line("{\"action\":\"close\"}\n".to_string()));
        assert_eq!(actions[1], Action::LockState);
        assert_eq!(
            connection.on_event(Event::Executed(json(response))),
            vec![
                Action::MarkActivity,
                Action::UnlockState,
                Action::Send(format!("{}\n", sorted(response))),
            ]
        );
        assert_eq!(
            connection.on_event(Event::Sent(true)),
            vec![Action::ReadLine]
        );
    }
}

/// A document as it is written: with its members in the order of their names.
fn sorted(text: &str) -> String {
    serde_json::from_str::<serde_json::Value>(text)
        .unwrap()
        .to_string()
}

#[test]
fn connections_take_turns_at_the_state() {
    let mut connections = [Connection::new(false), Connection::new(false)];
    let mut waiting: Vec<Vec<Action>> = Vec::new();
    for (i, connection) in connections.iter_mut().enumerate() {
        let line = format!("{{\"action\":\"url\",\"id\":{i}}}\n");
        waiting.push(connection.on_event(Event::Line(line)));
    }
    let mut holder: Option<usize> = None;
    let mut done: Vec<(usize, Action)> = Vec::new();
    // The first marks its activity and takes the state; from then on they go by
    // turns, as far as the state lets them.
    let mut order = vec![0, 0];
    while waiting.iter().any(|actions| !actions.is_empty()) {
        let next = order.pop().unwrap_or(1 - done.last().map_or(0, |deed| deed.0));
        let stuck = waiting[next].is_empty()
            || (waiting[next][0] == Action::LockState && holder.is_some());
        let who = if stuck { 1 - next } else { next };
        let action = waiting[who].remove(0);
        match &action {
            Action::LockState => {
                assert_eq!(holder, None);
                holder = Some(who);
            }
            Action::Execute(_) => {
                assert_eq!(holder, Some(who));
                let more = connections[who].on_event(Event::Executed(json("{}")));
                waiting[who].extend(more);
            }
            Action::UnlockState => {
                assert_eq!(holder, Some(who));
                holder = None;
            }
            Action::Send(_) => assert_ne!(holder, Some(who)),
            _ => {}
        }
        done.push((who, action));
    }
    let executed: Vec<usize> = done
        .iter()
        .filter(|deed| matches!(deed.1, Action::Execute(_)))
        .map(|deed| deed.0)
        .collect();
    assert_eq!(executed, [0, 1]);
    let place = |who: usize, action: &Action| {
        done.iter()
            .position(|deed| deed.0 == who && deed.1 == *action)
            .unwrap()
    };
    let answer = Action::Send("{}\n".to_string());
    assert!(place(0, &Action::UnlockState) < place(1, &Action::LockState));
    assert!(place(0, &Action::UnlockState) < place(1, &answer));
    assert_eq!(holder, None);
}

#[test]
fn clients_read_back_what_connections_write() {
    let mut connection = Connection::new(false);
    let documents = [
        "{\"data\":{\"text\":\"two\\nlines\\r\\n\"},\"success\":true}",
        "\"\\n\"",
        "[null,[],{\"a\":-7}]",
    ];
    let mut written = String::new();
    let mut keep = |actions: Vec<Action>| {
        for action in actions {
            if let Action::Send(line) | Action::SendQuietly(line) = action {
                assert_eq!(line.find('\n'), Some(line.len() - 1));
                written.push_str(&line);
            }
        }
    };
    keep(connection.on_event(Event::Line("a\n".to_string())));
    for document in documents {
        keep(connection.on_event(Event::Line("{}\n".to_string())));
        keep(connection.on_event(Event::Executed(json(document))));
        keep(connection.on_event(Event::Sent(true)));
    }
    let read: Vec<Json> = written.lines().map(json).collect();
    assert_eq!(read.len(), 4);
    let complaint = read[0].get("error").unwrap().as_text().unwrap();
    assert!(complaint.starts_with("Invalid JSON: expected value at line 1"));
    for (document, answer) in documents.iter().zip(&read[1..]) {
        assert_eq!(*answer, json(document));
    }
}
