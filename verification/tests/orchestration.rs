use run_in_roblox::broker::CommandQueues;
use run_in_roblox::message::{Message, OutputLevel, RobloxEvent, RobloxMessage};
use run_in_roblox::place_runner::{PlaceRunner, PlaceRunnerArgs, RunEvent, RunState, StepOutcome};
use run_in_roblox::relay::OutputRelay;
use run_in_roblox::RunOptions;

fn options(oneshot: bool, team_test: bool) -> RunOptions {
    RunOptions {
        script: "script.lua".to_string(),
        place_file: Some("place.rbxl".to_string()),
        universe_id: Some(42),
        place_id: Some(1818),
        creator_id: Some(7),
        creator_type: Some(1),
        num_clients: 0,
        oneshot,
        no_launch: false,
        no_exit: false,
        team_test,
    }
}

fn runner(oneshot: bool) -> PlaceRunner {
    PlaceRunner::new(PlaceRunnerArgs {
        port: 7777,
        script: "print('from the runner')".to_string(),
        opts: options(oneshot, false),
    })
}

fn line(level: OutputLevel, body: &str, server: &str) -> RobloxMessage {
    RobloxMessage::Output { level, body: body.to_string(), server: server.to_string() }
}

#[test]
fn oneshot_start_queues_run_script_then_deregister() {
    let mut r = runner(true);
    let mut q = CommandQueues::new();
    let srv = "srv1".to_string();
    q.register(&srv);
    let (outcome, forwarded) = r.step(&mut q, RunEvent::Received(Message::Start { server: srv.clone() }));
    assert_eq!(outcome, StepOutcome::Continue);
    assert!(forwarded.is_empty());
    assert_eq!(r.state(), RunState::Running);
    let queued = q.poll(&srv);
    assert_eq!(
        queued,
        vec![
            RobloxEvent::RunScript { script: "print('from the runner')".to_string(), oneshot: true },
            RobloxEvent::Deregister { no_exit: false },
        ]
    );
}

#[test]
fn plain_start_queues_only_run_script() {
    let mut r = runner(false);
    let mut q = CommandQueues::new();
    let srv = "srv1".to_string();
    q.register(&srv);
    r.step(&mut q, RunEvent::Received(Message::Start { server: srv.clone() }));
    let queued = q.poll(&srv);
    assert_eq!(
        queued,
        vec![RobloxEvent::RunScript {
            script: "print('from the runner')".to_string(),
            oneshot: false,
        }]
    );
}

#[test]
fn stop_ends_the_run_only_in_oneshot_mode() {
    let srv = "srv1".to_string();

    let mut oneshot_runner = runner(true);
    let mut q1 = CommandQueues::new();
    q1.register(&srv);
    oneshot_runner.step(&mut q1, RunEvent::Received(Message::Start { server: srv.clone() }));
    let (outcome, _) = oneshot_runner.step(&mut q1, RunEvent::Received(Message::Stop { server: srv.clone() }));
    assert_eq!(outcome, StepOutcome::Ended);
    assert_eq!(oneshot_runner.state(), RunState::Draining);

    let mut plain_runner = runner(false);
    let mut q2 = CommandQueues::new();
    q2.register(&srv);
    plain_runner.step(&mut q2, RunEvent::Received(Message::Start { server: srv.clone() }));
    let (outcome, _) = plain_runner.step(&mut q2, RunEvent::Received(Message::Stop { server: srv.clone() }));
    assert_eq!(outcome, StepOutcome::Continue);
    assert_eq!(plain_runner.state(), RunState::Running);
}

#[test]
fn timeout_before_any_start_ends_cleanly_with_nothing_queued() {
    let mut r = runner(true);
    let mut q = CommandQueues::new();
    let srv = "srv1".to_string();
    q.register(&srv);
    let mut relay = OutputRelay::new();
    let (outcome, forwarded) = r.step(&mut q, RunEvent::TimedOut);
    assert_eq!(outcome, StepOutcome::Ended);
    assert!(forwarded.is_empty());
    relay.observe_all(&forwarded);
    assert_eq!(r.state(), RunState::Draining);
    assert_eq!(q.poll(&srv).len(), 0);
    r.stop(&mut q);
    assert_eq!(r.state(), RunState::Stopped);
    assert_eq!(relay.exit_code(), 0);
}

#[test]
fn cancellation_drains_then_stops_once() {
    let mut r = runner(false);
    let mut q = CommandQueues::new();
    let srv = "srv1".to_string();
    q.register(&srv);
    r.step(&mut q, RunEvent::Received(Message::Start { server: srv.clone() }));
    let (outcome, _) = r.step(&mut q, RunEvent::Cancelled);
    assert_eq!(outcome, StepOutcome::Ended);
    assert_eq!(r.state(), RunState::Draining);
    r.stop(&mut q);
    assert_eq!(r.state(), RunState::Stopped);
    assert!(!q.registered(&srv));
}

#[test]
fn first_message_not_start_is_a_protocol_error() {
    let mut r = runner(false);
    let mut q = CommandQueues::new();
    let srv = "srv1".to_string();
    q.register(&srv);
    let (outcome, forwarded) = r.step(&mut q, RunEvent::Received(Message::Stop { server: srv.clone() }));
    assert_eq!(outcome, StepOutcome::ProtocolError);
    assert!(forwarded.is_empty());
    assert_eq!(r.state(), RunState::Draining);

    let mut r2 = runner(false);
    let mut q2 = CommandQueues::new();
    q2.register(&srv);
    let batch = vec![line(OutputLevel::Print, "too early", "srv1")];
    let (outcome, forwarded) = r2.step(&mut q2, RunEvent::Received(Message::Messages(batch)));
    assert_eq!(outcome, StepOutcome::ProtocolError);
    assert!(forwarded.is_empty());
}

#[test]
fn start_for_unregistered_instance_queues_nothing() {
    let mut r = runner(true);
    let mut q = CommandQueues::new();
    let srv = "srv1".to_string();
    let (outcome, _) = r.step(&mut q, RunEvent::Received(Message::Start { server: srv.clone() }));
    assert_eq!(outcome, StepOutcome::Continue);
    assert!(!q.registered(&srv));
    assert_eq!(q.poll(&srv).len(), 0);
}

#[test]
fn scenario_oneshot_print_then_script_error_then_stop() {
    let mut r = runner(true);
    let mut q = CommandQueues::new();
    let mut relay = OutputRelay::new();
    let srv = "srv1".to_string();
    q.register(&srv);

    let (outcome, forwarded) = r.step(&mut q, RunEvent::Received(Message::Start { server: srv.clone() }));
    assert_eq!(outcome, StepOutcome::Continue);
    relay.observe_all(&forwarded);
    let queued = q.poll(&srv);
    assert_eq!(
        queued,
        vec![
            RobloxEvent::RunScript { script: "print('from the runner')".to_string(), oneshot: true },
            RobloxEvent::Deregister { no_exit: false },
        ]
    );

    let (outcome, forwarded) = r.step(
        &mut q,
        RunEvent::Received(Message::Messages(vec![line(OutputLevel::Print, "hello", "srv1")])),
    );
    assert_eq!(outcome, StepOutcome::Continue);
    assert_eq!(forwarded, vec![line(OutputLevel::Print, "hello", "srv1")]);
    relay.observe_all(&forwarded);
    assert_eq!(relay.exit_code(), 0);

    let (outcome, forwarded) = r.step(
        &mut q,
        RunEvent::Received(Message::Messages(vec![line(OutputLevel::ScriptError, "boom", "srv1")])),
    );
    assert_eq!(outcome, StepOutcome::Continue);
    assert_eq!(forwarded, vec![line(OutputLevel::ScriptError, "boom", "srv1")]);
    relay.observe_all(&forwarded);
    assert_eq!(relay.exit_code(), 1);

    let (outcome, forwarded) = r.step(&mut q, RunEvent::Received(Message::Stop { server: srv.clone() }));
    assert_eq!(outcome, StepOutcome::Ended);
    assert!(forwarded.is_empty());
    assert_eq!(r.state(), RunState::Draining);
    r.stop(&mut q);
    assert_eq!(r.state(), RunState::Stopped);
    assert_eq!(relay.exit_code(), 1);
}

#[test]
fn studio_args_for_a_server_run() {
    let r = PlaceRunner::new(PlaceRunnerArgs {
        port: 7777,
        script: "s".to_string(),
        opts: RunOptions { num_clients: 3, ..options(false, false) },
    });
    let args = r.get_studio_args();
    assert_eq!(
        args,
        vec![
            "-task",
            "StartServer",
            "-placeId",
            "1818",
            "-universeId",
            "42",
            "-creatorId",
            "7",
            "-creatorType",
            "1",
            "-numtestserverplayersuponstartup",
            "3",
        ]
    );
}

#[test]
fn studio_args_for_a_team_test_run() {
    let r = PlaceRunner::new(PlaceRunnerArgs {
        port: 7777,
        script: "s".to_string(),
        opts: RunOptions {
            place_file: None,
            creator_id: None,
            creator_type: None,
            ..options(false, true)
        },
    });
    let args = r.get_studio_args();
    assert_eq!(args, vec!["-task", "StartTeamTest", "-placeId", "1818", "-universeId", "42"]);
}

#[test]
fn decimal_formatting_of_extreme_ids() {
    let r = PlaceRunner::new(PlaceRunnerArgs {
        port: 7777,
        script: "s".to_string(),
        opts: RunOptions {
            place_id: Some(0),
            universe_id: Some(u64::MAX),
            ..options(false, true)
        },
    });
    let args = r.get_studio_args();
    assert_eq!(args[3], "0");
    assert_eq!(args[5], "18446744073709551615");
}

#[test]
fn runner_reports_its_port() {
    let r = runner(false);
    assert_eq!(r.port(), 7777);
}
