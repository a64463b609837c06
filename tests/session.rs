use hypermangle_core::client::{forward_step, ForwardStep};
use hypermangle_core::endpoint::{probe_outcome, socket_name, ProbeOutcome};
use hypermangle_core::launch::{launch_decision, try_build_rust_project, DirEntryInfo, Launch};
use hypermangle_core::listener::{Action, Event, Listener, Phase, ShutdownToken};
use hypermangle_core::message::{decode, encode, ControlMessage};
use hypermangle_core::remote::Outbox;

/// What a client reads from a stream of frames, until the stream ends.
fn client_reads(frames: &[Vec<u8>]) -> (Vec<String>, bool) {
    let mut printed = Vec::new();
    for frame in frames {
        match forward_step(decode(frame)) {
            ForwardStep::Print(text) => printed.push(text),
            ForwardStep::Finish => return (printed, true),
            ForwardStep::Fail => return (printed, false),
        }
    }
    (printed, false)
}

/// Runs a probe against the listener and returns what the probing client concludes.
fn probe(listener: &mut Listener) -> ProbeOutcome {
    assert!(matches!(listener.step(Event::Accepted), Action::ReadRequest));
    let request = decode(&encode(&ControlMessage::IdRequest)).unwrap();
    match listener.step(Event::FrameRead(request)) {
        Action::ReplyAndClose(bytes) => probe_outcome(true, &decode(&bytes).ok()),
        _ => panic!("an id request is answered"),
    }
}

/// Brings a command as far as its handler.
fn start_command(listener: &mut Listener, argv: &[&str]) -> Vec<String> {
    assert!(matches!(listener.step(Event::Accepted), Action::ReadRequest));
    let args: Vec<String> = argv.iter().map(|s| s.to_string()).collect();
    let request = decode(&encode(&ControlMessage::Args(args))).unwrap();
    let parsed = match listener.step(Event::FrameRead(request)) {
        Action::Parse(a) => a,
        _ => panic!("arguments go to the parser"),
    };
    assert!(matches!(listener.step(Event::Parsed), Action::RunHandler));
    assert_eq!(listener.phase(), Phase::Running);
    parsed
}

#[test]
fn status_command_streams_then_closes() {
    let mut listener = Listener::new(4242);
    let parsed = start_command(&mut listener, &["status"]);
    assert_eq!(parsed, vec!["status".to_string()]);

    let mut out = Outbox::new();
    let mut frames = Vec::new();
    frames.push(out.packet("a".to_string()).unwrap());
    frames.push(out.packet("b".to_string()).unwrap());
    frames.push(out.close().unwrap());
    assert_eq!(client_reads(&frames), (vec!["a".to_string(), "b".to_string()], true));

    assert!(matches!(listener.step(Event::HandlerFinished(false)), Action::AwaitConnection));
    assert_eq!(listener.phase(), Phase::Waiting);
    assert!(!listener.is_retired());
    assert_eq!(probe(&mut listener), ProbeOutcome::Running(4242));
}

#[test]
fn kill_command_stops_the_listener() {
    let mut listener = Listener::new(7);
    start_command(&mut listener, &["kill"]);
    let mut out = Outbox::new();
    let frames = vec![out.close().unwrap()];
    assert_eq!(client_reads(&frames), (Vec::new(), true));

    assert!(matches!(listener.step(Event::HandlerFinished(true)), Action::Exit));
    assert_eq!(listener.phase(), Phase::Stopped);
    assert!(listener.is_retired());
    assert!(matches!(listener.step(Event::Accepted), Action::Exit));
    // Once the process is gone nothing listens, and a probe finds no service.
    assert_eq!(probe_outcome(false, &None), ProbeOutcome::Absent);
}

#[test]
fn vanished_client_does_not_stop_service() {
    let mut listener = Listener::new(99);
    start_command(&mut listener, &["status"]);
    // The handler goes on writing; the frames have nowhere to go and are dropped.
    let mut out = Outbox::new();
    assert!(out.packet("lost".to_string()).is_some());
    assert!(out.close().is_some());
    assert!(matches!(listener.step(Event::HandlerFinished(false)), Action::AwaitConnection));
    assert!(matches!(listener.step(Event::Accepted), Action::ReadRequest));
    assert!(matches!(listener.step(Event::ReadFailed), Action::Close));
    assert_eq!(probe(&mut listener), ProbeOutcome::Running(99));
}

#[test]
fn concurrent_clients_are_served_in_turn() {
    let mut listener = Listener::new(1);
    start_command(&mut listener, &["first"]);
    // A second connection waits in the backlog: the listener accepts nothing while a command runs.
    assert!(matches!(listener.step(Event::Accepted), Action::Ignore));
    assert_eq!(listener.phase(), Phase::Running);

    let mut first = Outbox::new();
    let first_frames = vec![first.packet("one".to_string()).unwrap(), first.close().unwrap()];
    assert!(matches!(listener.step(Event::HandlerFinished(false)), Action::AwaitConnection));

    start_command(&mut listener, &["second"]);
    let mut second = Outbox::new();
    let second_frames = vec![second.packet("two".to_string()).unwrap(), second.close().unwrap()];
    assert!(matches!(listener.step(Event::HandlerFinished(false)), Action::AwaitConnection));

    assert_eq!(client_reads(&first_frames), (vec!["one".to_string()], true));
    assert_eq!(client_reads(&second_frames), (vec!["two".to_string()], true));
}

#[test]
fn outbox_closes_once() {
    let mut out = Outbox::new();
    assert!(!out.closed());
    let first = out.close();
    assert_eq!(first, Some(encode(&ControlMessage::CloseSocket)));
    assert!(out.closed());
    assert_eq!(out.close(), None);
    assert_eq!(out.packet("late".to_string()), None);
}

#[test]
fn outbox_packet_frame() {
    let mut out = Outbox::new();
    assert_eq!(out.packet("x".to_string()), Some(encode(&ControlMessage::Packet("x".to_string()))));
}

#[test]
fn parse_failure_is_reported_as_packet() {
    let mut listener = Listener::new(3);
    assert!(matches!(listener.step(Event::Accepted), Action::ReadRequest));
    let request = ControlMessage::Args(vec!["bogus".to_string()]);
    assert!(matches!(listener.step(Event::FrameRead(request)), Action::Parse(_)));
    match listener.step(Event::ParseFailed("unknown command".to_string())) {
        Action::ReplyAndClose(bytes) => {
            assert_eq!(client_reads(&[bytes]), (vec!["unknown command".to_string()], false))
        }
        _ => panic!("a parse failure is answered"),
    }
    assert_eq!(listener.phase(), Phase::Waiting);
}

#[test]
fn unexpected_first_frame_is_closed_silently() {
    let mut listener = Listener::new(3);
    assert!(matches!(listener.step(Event::Accepted), Action::ReadRequest));
    assert!(matches!(
        listener.step(Event::FrameRead(ControlMessage::Packet("hi".to_string()))),
        Action::Close
    ));
    assert_eq!(listener.phase(), Phase::Waiting);
    assert!(matches!(listener.step(Event::AcceptFailed), Action::AwaitConnection));
}

#[test]
fn retired_token_ends_the_wait() {
    let mut listener = Listener::new(3);
    assert!(matches!(listener.step(Event::ShutdownRetired), Action::Exit));
    assert!(listener.is_retired());
    assert_eq!(listener.phase(), Phase::Stopped);
}

#[test]
fn shutdown_token_stays_retired() {
    let mut token = ShutdownToken::new();
    assert!(!token.is_retired());
    token.retire();
    assert!(token.is_retired());
    token.retire();
    assert!(token.is_retired());
}

#[test]
fn probe_outcomes() {
    assert_eq!(probe_outcome(false, &None), ProbeOutcome::Absent);
    assert_eq!(probe_outcome(true, &Some(ControlMessage::IdResponse(5))), ProbeOutcome::Running(5));
    assert_eq!(probe_outcome(true, &Some(ControlMessage::CloseSocket)), ProbeOutcome::Unexpected);
    assert_eq!(probe_outcome(true, &None), ProbeOutcome::Unexpected);
}

#[test]
fn forward_step_outcomes() {
    assert!(matches!(forward_step(Ok(ControlMessage::Packet("p".to_string()))), ForwardStep::Print(t) if t == "p"));
    assert!(matches!(forward_step(Ok(ControlMessage::CloseSocket)), ForwardStep::Finish));
    assert!(matches!(forward_step(Ok(ControlMessage::IdRequest)), ForwardStep::Fail));
    assert!(matches!(forward_step(decode(&[1, 2])), ForwardStep::Fail));
}

#[test]
fn socket_name_is_under_run() {
    assert_eq!(socket_name("hypermangle"), "/run/hypermangle.sock");
    assert_eq!(socket_name(""), "/run/.sock");
}

#[test]
fn launch_decisions() {
    assert_eq!(launch_decision(None, None), Launch::Forward);
    assert_eq!(launch_decision(None, Some(3)), Launch::Forward);
    assert_eq!(launch_decision(Some(false), Some(3)), Launch::AlreadyRunning(3));
    assert_eq!(launch_decision(Some(true), Some(3)), Launch::AlreadyRunning(3));
    assert_eq!(launch_decision(Some(true), None), Launch::SpawnDetached);
    assert_eq!(launch_decision(Some(false), None), Launch::Serve);
}

#[test]
fn build_picks_first_project() {
    let file = DirEntryInfo { is_dir: false, has_manifest: true };
    let plain_dir = DirEntryInfo { is_dir: true, has_manifest: false };
    let project = DirEntryInfo { is_dir: true, has_manifest: true };
    assert_eq!(try_build_rust_project(&vec![]), None);
    assert_eq!(try_build_rust_project(&vec![file, plain_dir]), None);
    assert_eq!(try_build_rust_project(&vec![file, plain_dir, project, project]), Some(2));
}
