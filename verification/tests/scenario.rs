use agent_browser_daemon::e2e::clicks::{
    assert_iframe_reference_click, assert_reference_click_builtin_component_visuals,
    assert_reference_click_cross_branch_blocker, assert_reference_click_shadow_frame_blocker,
    frame_relationship_fixture,
};
use agent_browser_daemon::e2e::commands::{
    attach_pinned_session, cdp_url, command_with, create_restore_state_with_cookie,
    create_storage_state_with_cookie, current_url, evaluate, launch_binding_host,
    reference_relationship_page, select_values, send,
};
use agent_browser_daemon::e2e::data_url::{can_be_data_url, html_data_url};
use agent_browser_daemon::e2e::literal::Literal;
use agent_browser_daemon::e2e::pages::{builtin_page, Cover, ShadowMode, Topology};
use agent_browser_daemon::e2e::scenario::{
    evaluation, reference_command, Action, Control, Event, Expect, Facts, Outcome, Phase, Run,
    Status, Step, AWAIT_LIMIT_MS, AWAIT_PAUSE_MS,
};
use agent_browser_daemon::json::Json;

fn json(text: &str) -> Json {
    Json::parse(text).unwrap()
}

fn executed(action: Action) -> String {
    match action {
        Action::Execute(command) => command.into_text(),
        other => panic!("{other:?}"),
    }
}

/// The commands of a scenario of nothing but commands that all work.
fn commands(steps: Vec<Step>, replies: &str) -> (Vec<String>, Status) {
    let (mut run, mut action) = Run::start(steps);
    let mut seen = Vec::new();
    while run.status == Status::Running {
        seen.push(executed(action));
        action = run.on_event(Event::Reply(json(replies)));
    }
    (seen, run.status)
}

const FINE: &str = r#"{"success":true,"data":{"saveStatus":"saved"}}"#;

#[test]
fn states_are_created_by_commands() {
    let steps = create_storage_state_with_cookie("/tmp/s.json", "a", "b");
    assert_eq!(
        commands(steps, FINE),
        (
            vec![
                r#"{"action":"launch","args":["--no-sandbox","--disable-dev-shm-usage"],"headless":true,"id":"1"}"#.to_string(),
                r#"{"action":"navigate","id":"2","url":"https://example.com"}"#.to_string(),
                r#"{"action":"cookies_set","domain":".example.com","expires":2000000000,"id":"3","name":"a","path":"/","value":"b"}"#.to_string(),
                r#"{"action":"state_save","id":"4","path":"/tmp/s.json"}"#.to_string(),
                r#"{"action":"close","id":"5"}"#.to_string(),
            ],
            Status::Finished
        )
    );
    let steps = create_restore_state_with_cookie("key", "a", "b");
    assert_eq!(
        commands(steps, FINE),
        (
            vec![
                r#"{"action":"navigate","id":"1","restoreKey":"key","url":"https://example.com"}"#.to_string(),
                r#"{"action":"cookies_set","domain":".example.com","expires":2000000000,"id":"2","name":"a","path":"/","value":"b"}"#.to_string(),
                r#"{"action":"close","id":"3"}"#.to_string(),
            ],
            Status::Finished
        )
    );
    // Closing has to save.
    let steps = create_restore_state_with_cookie("key", "a", "b");
    let (seen, status) = commands(steps, r#"{"success":true,"data":{"saveStatus":"skipped"}}"#);
    assert_eq!((seen.len(), status), (3, Status::Failed));
}

#[test]
fn sessions_attach_to_a_host() {
    assert_eq!(
        commands(launch_binding_host(), FINE).0,
        vec![
            r#"{"action":"launch","args":["--no-sandbox","--disable-dev-shm-usage"],"headless":true,"id":"host-1"}"#,
            r#"{"action":"cdp_url","id":"host-2"}"#,
        ]
    );
    assert_eq!(
        cdp_url(&json(r#"{"data":{"cdpUrl":"ws://x"}}"#)),
        Some("ws://x")
    );
    assert_eq!(cdp_url(&json(r#"{"data":{}}"#)), None);
    assert_eq!(
        commands(attach_pinned_session("s", "ws://x", "http://y"), FINE).0,
        vec![
            r#"{"action":"launch","cdpUrl":"ws://x","id":"s-launch","pinTab":true}"#,
            r#"{"action":"navigate","id":"s-nav","url":"http://y"}"#,
        ]
    );
    assert_eq!(
        current_url("7").to_json().into_text(),
        r#"{"action":"url","id":"7"}"#
    );
    assert_eq!(
        select_values("4", "#s", &vec!["a".to_string(), "b".to_string()])
            .to_json()
            .into_text(),
        r##"{"action":"select","id":"4","selector":"#s","values":["a","b"]}"##
    );
    assert_eq!(
        reference_command("hover", "e5").to_json().into_text(),
        r#"{"action":"hover","selector":"@e5"}"#
    );
    assert_eq!(
        evaluation("1+1").to_json().into_text(),
        r#"{"action":"evaluate","script":"1+1"}"#
    );
    assert_eq!(
        commands(reference_relationship_page("foobar"), FINE).0,
        [
            r#"{"action":"launch","headless":true}"#,
            r#"{"action":"navigate","url":"data:text/html;base64,Zm9vYmFy"}"#,
            r#"{"action":"snapshot"}"#,
        ]
    );
}

#[test]
fn a_failed_command_fails_the_run() {
    let (seen, status) = commands(launch_binding_host(), r#"{"success":false}"#);
    assert_eq!((seen.len(), status), (1, Status::Failed));
    let step = evaluate("x", "[1]", Literal::list(vec![Literal::Whole(1)]));
    let (mut run, _) = Run::start(vec![step]);
    assert_eq!(
        run.on_event(Event::Reply(json(r#"{"success":true,"data":{"result":[2]}}"#))),
        Action::Fail
    );
    // Over is over.
    assert_eq!(
        run.on_event(Event::Reply(json(r#"{"success":true,"data":{"result":[1]}}"#))),
        Action::Fail
    );
    // An answer of another kind is wrong too.
    let (mut run, _) = Run::start(vec![send(current_url("1"))]);
    assert_eq!(run.on_event(Event::Done), Action::Fail);
    let (run, action) = Run::start(vec![]);
    assert_eq!((run.status, action), (Status::Finished, Action::Finish));
}

#[test]
fn conditions_are_waited_for_until_the_deadline() {
    let steps = || vec![Step::Await("window.ready".to_string())];
    let (mut run, action) = Run::start(steps());
    assert_eq!(action, Action::StartDeadline(AWAIT_LIMIT_MS));
    let evaluate = r#"{"action":"evaluate","script":"window.ready"}"#;
    assert_eq!(executed(run.on_event(Event::Done)), evaluate);
    for reply in [
        r#"{"success":true,"data":{"result":false}}"#,
        r#"{"success":true,"data":{}}"#,
        r#"{"success":true,"data":null}"#,
    ] {
        assert_eq!(
            run.on_event(Event::Reply(json(reply))),
            Action::Pause(AWAIT_PAUSE_MS)
        );
        assert_eq!(executed(run.on_event(Event::Done)), evaluate);
    }
    let yes = r#"{"success":true,"data":{"result":true}}"#;
    assert_eq!(run.on_event(Event::Reply(json(yes))), Action::Finish);
    let (mut run, _) = Run::start(steps());
    run.on_event(Event::Done);
    assert_eq!(run.on_event(Event::Deadline), Action::Fail);
    let (mut run, _) = Run::start(steps());
    run.on_event(Event::Done);
    assert_eq!(
        run.on_event(Event::Reply(json(r#"{"success":false}"#))),
        Action::Fail
    );
    // A reply that worked has to bring data.
    let (mut run, _) = Run::start(steps());
    run.on_event(Event::Done);
    assert_eq!(
        run.on_event(Event::Reply(json(r#"{"success":true}"#))),
        Action::Fail
    );
    assert_eq!((AWAIT_LIMIT_MS, AWAIT_PAUSE_MS), (5000, 25));
}

#[test]
fn earlier_replies_can_be_settled() {
    let steps = |text: &str| {
        vec![
            Step::Send(current_url("1"), vec![]),
            Step::Settle(0, vec![Expect::Refusal(text.to_string())]),
        ]
    };
    for (text, reply, end) in [
        ("covered", r#"{"success":false,"error":"is covered by"}"#, Action::Finish),
        ("covered", r#"{"success":false,"error":"is hidden"}"#, Action::Fail),
        ("covered", r#"{"success":true,"error":"is covered by"}"#, Action::Fail),
        ("covered", r#"{"success":false}"#, Action::Fail),
    ] {
        let (mut run, _) = Run::start(steps(text));
        assert_eq!(run.on_event(Event::Reply(json(reply))), Action::Look);
        assert_eq!(run.on_event(Event::Done), end);
    }
    // A step that left no reply cannot be settled.
    let (mut run, _) = Run::start(vec![Step::StopServers, Step::Settle(0, vec![])]);
    assert_eq!(run.on_event(Event::Done), Action::Look);
    assert_eq!(run.on_event(Event::Done), Action::Fail);
}

#[test]
fn controls_are_looked_up_by_reference() {
    let snapshot = r#"{"success":true,"data":{"refs":{"e4":{"name":"Go"}}}}"#;
    let steps = |facts: Facts| {
        vec![
            send(current_url("1")),
            Step::Find(0, "Go".to_string(), facts),
            Step::Call(1, "function() {}".to_string(), vec![]),
        ]
    };
    let control = |frame: Option<&str>, node: Option<i64>| {
        Event::Found(Some(Control {
            frame: frame.map(str::to_string),
            node,
            own_session: false,
            selected: true,
        }))
    };
    let any = Facts {
        own_session: None,
        selected: None,
    };
    let (mut run, _) = Run::start(steps(any));
    assert_eq!(
        run.on_event(Event::Reply(json(snapshot))),
        Action::LookUp("e4".to_string())
    );
    assert_eq!(
        run.on_event(control(Some("f"), Some(9))),
        Action::Call("f".to_string(), 9, "function() {}".to_string())
    );
    for (facts, event, fine) in [
        (any, Event::Found(None), false),
        (any, control(None, Some(9)), false),
        (any, control(Some("f"), None), false),
        (
            Facts {
                own_session: Some(false),
                selected: Some(true),
            },
            control(Some("f"), Some(9)),
            true,
        ),
        (
            Facts {
                own_session: Some(true),
                selected: None,
            },
            control(Some("f"), Some(9)),
            false,
        ),
        (
            Facts {
                own_session: None,
                selected: Some(false),
            },
            control(Some("f"), Some(9)),
            false,
        ),
    ] {
        let (mut run, _) = Run::start(steps(facts));
        run.on_event(Event::Reply(json(snapshot)));
        run.on_event(event);
        assert_eq!(run.status == Status::Running, fine);
    }
    // A control that the snapshot does not show ends the run.
    let (mut run, _) = Run::start(steps(any));
    assert_eq!(
        run.on_event(Event::Reply(json(r#"{"success":true,"data":{"refs":{}}}"#))),
        Action::Fail
    );
}

/// A browser in which everything is as a scenario expects it.
struct World {
    names: Vec<&'static str>,
    /// What scripts say, by a part of the script, in the order of the asking.
    results: Vec<(&'static str, Vec<&'static str>)>,
    /// Refusals of clicks, in the order of the clicking.
    refusals: Vec<Option<&'static str>>,
    own_session: bool,
    sessions: u64,
    tree: &'static str,
    hit: &'static str,
    description: &'static str,
    call: &'static str,
}

impl World {
    fn answer(&mut self, action: Action) -> Event {
        match action {
            Action::Execute(command) => {
                let kind = command.get("action").unwrap().as_text().unwrap().to_string();
                match kind.as_str() {
                    "snapshot" => {
                        let refs: Vec<String> = self
                            .names
                            .iter()
                            .enumerate()
                            .map(|(i, name)| format!("\"e{i}\":{{\"name\":\"{name}\"}}"))
                            .collect();
                        Event::Reply(json(&format!(
                            "{{\"success\":true,\"data\":{{\"refs\":{{{}}}}}}}",
                            refs.join(",")
                        )))
                    }
                    "evaluate" => {
                        let script = command.get("script").unwrap().as_text().unwrap();
                        let (_, results) = self
                            .results
                            .iter_mut()
                            .find(|(part, _)| script.contains(part))
                            .unwrap_or_else(|| panic!("{script}"));
                        let result = if results.len() > 1 {
                            results.remove(0)
                        } else {
                            results[0]
                        };
                        Event::Reply(json(&format!(
                            "{{\"success\":true,\"data\":{{\"result\":{result}}}}}"
                        )))
                    }
                    "click" | "check" | "uncheck" => match self.refusals.remove(0) {
                        Some(error) => Event::Reply(json(&format!(
                            "{{\"success\":false,\"error\":\"{error}\"}}"
                        ))),
                        None => Event::Reply(json("{\"success\":true}")),
                    },
                    _ => Event::Reply(json("{\"success\":true}")),
                }
            }
            Action::StartDeadline(_)
            | Action::Pause(_)
            | Action::Look
            | Action::StopServers => Event::Done,
            Action::LookUp(reference) => {
                let index: usize = reference[1..].parse().unwrap();
                let target = self.names[index].contains("target");
                Event::Found(Some(Control {
                    frame: Some(if target { "T" } else { "O" }.to_string()),
                    node: Some(if target { 5 } else { 6 }),
                    own_session: self.own_session,
                    selected: true,
                }))
            }
            Action::CountSessions => Event::Sessions(self.sessions),
            Action::Call(_, _, function) => Event::Reply(json(if function.contains("scrollTo") {
                "{\"result\":{\"value\":[200,true]}}"
            } else {
                self.call
            })),
            Action::DescribeAt(_, x, y) => {
                assert_eq!((x, y), (70, 215));
                Event::Reply(json(
                    "{\"node\":{\"attributes\":[\"style\",\"\",\"id\",\"decoy\"]}}",
                ))
            }
            Action::FrameTree => Event::Reply(json(self.tree)),
            Action::HitCentre(node) => {
                assert_eq!(node, 5);
                Event::Reply(json(self.hit))
            }
            Action::DescribeHit(node) => {
                assert_eq!(node, 77);
                Event::Reply(json(self.description))
            }
            Action::Finish | Action::Fail => unreachable!(),
        }
    }

    /// Plays a scenario to its end; says how many steps were left behind.
    fn play(&mut self, steps: Vec<Step>) -> (Status, usize, usize) {
        let total = steps.len();
        let (mut run, mut action) = Run::start(steps);
        while run.status == Status::Running {
            let event = self.answer(action);
            action = run.on_event(event);
        }
        (run.status, run.outcomes.len(), total)
    }
}

const SIBLINGS: &str = r#"{"frameTree":{"frame":{"id":"top"},"childFrames":[{"frame":{"id":"common"},
    "childFrames":[{"frame":{"id":"T"}},{"frame":{"id":"O"}}]}]}}"#;

fn cross_world() -> World {
    World {
        names: vec!["Cross branch target", "Cross branch overlay"],
        results: vec![
            ("!!(ready", vec!["false", "true"]),
            ("[ready.target", vec!["[true,true,true]"]),
            ("const common", vec!["\"covering-branch\""]),
            ("elementFromPoint", vec!["\"target-branch\""]),
            ("...hits", vec!["{\"target\":1,\"overlay\":0}"]),
        ],
        refusals: vec![None, Some("covered by <iframe#covering-branch>")],
        own_session: false,
        sessions: 0,
        tree: SIBLINGS,
        hit: "{\"frameId\":\"O\",\"backendNodeId\":6}",
        description: "{}",
        call: "{}",
    }
}

fn cross_steps() -> Vec<Step> {
    assert_reference_click_cross_branch_blocker(Topology::SameOrigin, false, 8080)
}

#[test]
fn a_click_across_branches_is_refused_with_the_owner() {
    assert_eq!(cross_world().play(cross_steps()), (Status::Finished, 28, 28));
    // Each thing that is not as it has to be ends the run.
    let failures: Vec<Box<dyn Fn(&mut World)>> = vec![
        Box::new(|w| w.names = vec!["Cross branch overlay"]),
        Box::new(|w| w.results[1].1 = vec!["[true,true,false]"]),
        Box::new(|w| w.results[2].1 = vec!["\"target-branch\""]),
        Box::new(|w| {
            w.results[4].1 = vec!["{\"target\":1,\"overlay\":0}", "{\"target\":2,\"overlay\":0}"]
        }),
        Box::new(|w| w.results[4].1 = vec!["{\"target\":0,\"overlay\":0}"]),
        Box::new(|w| w.refusals = vec![None, None]),
        Box::new(|w| w.refusals[0] = Some("covered by <iframe#covering-branch>")),
        Box::new(|w| w.refusals[1] = Some("covered by <button#overlay-internal>")),
        Box::new(|w| w.sessions = 1),
        Box::new(|w| w.hit = "{\"frameId\":\"T\",\"backendNodeId\":6}"),
        Box::new(|w| w.hit = "{\"frameId\":\"O\",\"backendNodeId\":7}"),
        Box::new(|w| w.hit = "{\"frameId\":\"O\"}"),
        Box::new(|w| {
            w.tree = r#"{"frameTree":{"frame":{"id":"top"},"childFrames":[{"frame":{"id":"T"}}]}}"#
        }),
        Box::new(|w| {
            w.tree = r#"{"frameTree":{"frame":{"id":"top"},"childFrames":[
                {"frame":{"id":"c"},"childFrames":[{"frame":{"id":"T"}}]},
                {"frame":{"id":"d"},"childFrames":[{"frame":{"id":"O"}}]}]}}"#
        }),
    ];
    for (i, change) in failures.iter().enumerate() {
        let mut world = cross_world();
        change(&mut world);
        assert_eq!(world.play(cross_steps()).0, Status::Failed, "change {i}");
    }
    // Cousins lie one frame deeper.
    let steps = assert_reference_click_cross_branch_blocker(Topology::SameOrigin, true, 8080);
    assert_eq!(cross_world().play(steps).0, Status::Failed);
    let mut world = cross_world();
    world.tree = r#"{"frameTree":{"frame":{"id":"top"},"childFrames":[{"frame":{"id":"common"},
        "childFrames":[{"frame":{"id":"tb"},"childFrames":[{"frame":{"id":"T"}}]},
        {"frame":{"id":"ob"},"childFrames":[{"frame":{"id":"O"}}]}]}]}}"#;
    let steps = assert_reference_click_cross_branch_blocker(Topology::SameOrigin, true, 8080);
    assert_eq!(world.play(steps), (Status::Finished, 28, 28));
    // Across origins other things are expected of the pages.
    let steps = assert_reference_click_cross_branch_blocker(Topology::SameSession, false, 8080);
    let mut world = cross_world();
    assert_eq!(world.play(steps), (Status::Failed, 3, 28));
    let steps = assert_reference_click_cross_branch_blocker(Topology::SameSession, false, 8080);
    let mut world = cross_world();
    world.results[1].1 = vec!["[false,true,false]"];
    assert_eq!(world.play(steps).0, Status::Finished);
}

fn shell_world(frame_overlay: bool) -> World {
    World {
        names: vec!["Shared shell target", "Shared shell chat"],
        results: vec![
            ("!!(ready", vec!["true"]),
            ("[ready.target", vec!["[true,true,false]"]),
            (
                "const common",
                vec![if frame_overlay { "\"chat-frame\"" } else { "\"consent\"" }],
            ),
            ("elementFromPoint", vec!["\"target-frame\""]),
            ("...hits", vec!["{\"target\":1,\"overlay\":0}"]),
        ],
        refusals: vec![
            None,
            Some(if frame_overlay {
                "covered by <iframe#chat-frame>"
            } else {
                "covered by <cookie-dialog#consent>"
            }),
        ],
        own_session: false,
        sessions: 0,
        tree: SIBLINGS,
        hit: if frame_overlay {
            "{\"frameId\":\"O\",\"backendNodeId\":6}"
        } else {
            "{\"frameId\":\"common\",\"backendNodeId\":77}"
        },
        description: "{\"node\":{\"attributes\":[\"id\",\"consent-panel\"]}}",
        call: "{}",
    }
}

#[test]
fn a_click_in_a_shared_shell_is_refused_with_the_element() {
    let steps = |frame_overlay| {
        assert_reference_click_shadow_frame_blocker(
            Topology::SameOrigin,
            ShadowMode::Closed,
            frame_overlay,
            false,
            8080,
        )
    };
    assert_eq!(shell_world(true).play(steps(true)), (Status::Finished, 28, 28));
    assert_eq!(shell_world(false).play(steps(false)), (Status::Finished, 25, 25));
    let mut world = shell_world(false);
    world.hit = "{\"frameId\":\"top\",\"backendNodeId\":77}";
    assert_eq!(world.play(steps(false)).0, Status::Failed);
    for hit in [
        "{\"frameId\":\"common\"}",
        "{\"frameId\":\"common\",\"backendNodeId\":null}",
        "{\"frameId\":\"common\",\"backendNodeId\":\"77\"}",
    ] {
        let mut world = shell_world(false);
        world.hit = hit;
        assert_eq!(world.play(steps(false)).0, Status::Failed);
    }
    let mut world = shell_world(false);
    world.description = "{\"node\":{\"attributes\":[\"id\",\"consent\"]}}";
    assert_eq!(world.play(steps(false)).0, Status::Failed);
    let mut world = shell_world(true);
    world.refusals[1] = Some("covered by <button#overlay-internal>");
    assert_eq!(world.play(steps(true)).0, Status::Failed);
    // An open shell is seen by scripts.
    let open = assert_reference_click_shadow_frame_blocker(
        Topology::SameOrigin,
        ShadowMode::Open,
        false,
        false,
        8080,
    );
    assert_eq!(shell_world(false).play(open).0, Status::Failed);
}

fn click_world(topology: Topology, cover: Cover) -> World {
    World {
        names: vec!["Top target", "Click frame", "Frame target"],
        results: vec![
            ("window.childReady", vec!["false", "false", "true"]),
            ("window.scrollTo", vec!["[60,2]"]),
            (
                "window.clicks",
                vec![match cover {
                    Cover::Nothing => "{\"target\":1,\"decoy\":0,\"top\":1}",
                    Cover::Child => "{\"target\":0,\"decoy\":0,\"top\":1}",
                    Cover::Parent => "{\"target\":0,\"decoy\":0,\"top\":0}",
                }],
            ),
        ],
        refusals: match cover {
            Cover::Nothing => vec![None, None],
            Cover::Child => vec![None, Some("covered by <div#child-overlay>")],
            Cover::Parent => vec![
                Some("covered by <div#parent-overlay>"),
                Some("covered by <div#parent-overlay>"),
            ],
        },
        own_session: topology == Topology::Oopif,
        sessions: 0,
        tree: "{}",
        hit: "{}",
        description: "{}",
        call: if topology == Topology::SameOrigin {
            "{\"result\":{\"value\":{\"disjoint\":true,\"parentAccessible\":true}}}"
        } else {
            "{\"result\":{\"value\":{\"disjoint\":true,\"parentAccessible\":false}}}"
        },
    }
}

#[test]
fn clicks_inside_frames_reach_their_target() {
    for topology in [Topology::SameOrigin, Topology::SameSession, Topology::Oopif] {
        for cover in [Cover::Nothing, Cover::Child, Cover::Parent] {
            for scaled in [false, true] {
                for select in [false, true] {
                    let steps =
                        || assert_iframe_reference_click(topology, select, cover, scaled, 8080);
                    let (status, done, total) = click_world(topology, cover).play(steps());
                    assert_eq!((status, done), (Status::Finished, total));
                    // A click on the decoy is noticed.
                    let mut world = click_world(topology, cover);
                    world.results[2].1 = vec!["{\"target\":0,\"decoy\":1,\"top\":1}"];
                    assert_eq!(world.play(steps()).0, Status::Failed);
                }
            }
        }
    }
    let count = |topology, select, scaled| {
        assert_iframe_reference_click(topology, select, Cover::Nothing, scaled, 8080).len()
    };
    assert_eq!(count(Topology::SameOrigin, false, false), 14);
    assert_eq!(count(Topology::SameOrigin, true, false), 15);
    assert_eq!(count(Topology::SameOrigin, false, true), 16);
    assert_eq!(count(Topology::Oopif, false, true), 18);
    // A frame of another process has to have a session of its own.
    let mut world = click_world(Topology::Oopif, Cover::Nothing);
    world.own_session = false;
    let steps =
        assert_iframe_reference_click(Topology::Oopif, false, Cover::Nothing, false, 8080);
    assert_eq!(world.play(steps).0, Status::Failed);
}

fn builtin_world() -> World {
    World {
        names: vec!["open details toggle", "closed details toggle"],
        results: vec![
            ("window.controls.every", vec!["true"]),
            ("window.overlays", vec!["true"]),
            ("window.controls[", vec!["true", "false", "true", "false"]),
            (
                "({hits",
                vec![
                    "{\"hits\":[{\"target\":0,\"overlay\":0},{\"target\":0,\"overlay\":0}],\"checked\":[false,false]}",
                    "{\"hits\":[{\"target\":2,\"overlay\":0},{\"target\":2,\"overlay\":0}],\"checked\":[false,false]}",
                ],
            ),
        ],
        refusals: vec![
            Some("covered by <cookie-dialog#builtin-dialog-0>"),
            Some("covered by <cookie-dialog#builtin-dialog-1>"),
            None,
            None,
            None,
            None,
        ],
        own_session: false,
        sessions: 0,
        tree: "{}",
        hit: "{}",
        description: "{}",
        call: "{}",
    }
}

#[test]
fn controls_inside_components_are_checked_unless_covered() {
    let steps = || assert_reference_click_builtin_component_visuals("details");
    assert_eq!(builtin_world().play(steps()), (Status::Finished, 30, 30));
    let mut world = builtin_world();
    world.refusals[1] = Some("covered by <span>");
    assert_eq!(world.play(steps()).0, Status::Failed);
    let mut world = builtin_world();
    world.refusals[3] = Some("covered by <span>");
    assert_eq!(world.play(steps()).0, Status::Failed);
    let mut world = builtin_world();
    world.results[2].1 = vec!["true", "true", "true", "false"];
    assert_eq!(world.play(steps()).0, Status::Failed);
    let steps = assert_reference_click_builtin_component_visuals("summary");
    assert_eq!(builtin_world().play(steps), (Status::Failed, 4, 30));
    // The page that is opened is the one with the controls of that kind.
    for kind in ["details", "summary"] {
        let steps = assert_reference_click_builtin_component_visuals(kind);
        let page = builtin_page(kind);
        assert!(page.contains(&format!("const kind = '{kind}';")));
        assert!(can_be_data_url(&page));
        assert_eq!(steps[..3], reference_relationship_page(&page)[..]);
        let url = html_data_url(&page);
        assert_eq!(steps[1], send(command_with("navigate", "url", Literal::word(&url))));
    }
}

#[test]
fn the_node_that_was_hit_is_described() {
    let (mut run, _) = Run::start(vec![
        send(current_url("1")),
        Step::Find(
            0,
            "a".to_string(),
            Facts {
                own_session: None,
                selected: None,
            },
        ),
        Step::Frames(1, None, 3),
        Step::HitInside(1, 2, "panel".to_string()),
    ]);
    run.on_event(Event::Reply(json(
        r#"{"success":true,"data":{"refs":{"e1":{"name":"a"}}}}"#,
    )));
    run.on_event(Event::Found(Some(Control {
        frame: Some("T".to_string()),
        node: Some(5),
        own_session: false,
        selected: false,
    })));
    assert_eq!(
        run.on_event(Event::Reply(json(SIBLINGS))),
        Action::HitCentre(5)
    );
    assert_eq!(
        run.on_event(Event::Reply(json(r#"{"frameId":"common","backendNodeId":41}"#))),
        Action::DescribeHit(41)
    );
    assert_eq!(run.phase, Phase::Describing(41));
    let description = r#"{"node":{"attributes":["id","panel"]}}"#;
    assert_eq!(
        run.on_event(Event::Reply(json(description))),
        Action::Finish
    );
    assert_eq!(
        run.outcomes.last(),
        Some(&Outcome::Described(41, json(description)))
    );
}

#[test]
fn frames_inside_controls_are_prepared() {
    let world = |sessions| World {
        names: vec!["Embed region"],
        results: vec![
            ("ready.size", vec!["true"]),
            ("iframe[is]", vec!["\"FancyFrame\""]),
        ],
        refusals: vec![],
        own_session: false,
        sessions,
        tree: "{}",
        hit: "{}",
        description: "{}",
        call: "{}",
    };
    let steps = |topology| frame_relationship_fixture(topology, 8080);
    assert_eq!(world(0).play(steps(Topology::SameOrigin)), (Status::Finished, 6, 6));
    assert_eq!(world(4).play(steps(Topology::Oopif)), (Status::Finished, 6, 6));
    assert_eq!(world(0).play(steps(Topology::Oopif)), (Status::Failed, 4, 6));
    assert_eq!(world(4).play(steps(Topology::SameSession)), (Status::Failed, 4, 6));
}
