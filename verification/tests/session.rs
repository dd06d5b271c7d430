use ipc_bench::config::{BenchmarkConfig, OutputFormat, ProcessRole};
use ipc_bench::protocol::{NamedPipeKind, StreamErrorKind};
use ipc_bench::session::{
    run_alpc, run_anon_pipe, run_copy_roundtrip, run_named_pipe, run_placeholder, run_tcp_loopback,
    run_udp_loopback, Action, Event, Method, Session, Stage,
};
use ipc_bench::shared_memory::WaitStrategy;

fn launched(args: &[&str]) -> Event {
    Event::Launched {
        args: args.iter().map(|s| s.to_string()).collect(),
        program_name: "bench".to_string(),
    }
}

fn fail_text(action: Action) -> String {
    match action {
        Action::Fail { message } => message,
        _ => panic!("expected a failure"),
    }
}

#[test]
fn tcp_parent_runs_the_whole_protocol() {
    let mut s = Session::new();
    assert!(matches!(run_tcp_loopback(&mut s, launched(&["-c", "10"])), Action::SpawnChild));
    assert_eq!(s.config.message_count, 10);
    assert!(matches!(run_tcp_loopback(&mut s, Event::Completed), Action::AwaitReady));
    let a = run_tcp_loopback(&mut s, Event::ChildReady { line: "ready:4242".to_string() });
    assert!(matches!(a, Action::OpenTransport { port: Some(4242) }));
    assert!(matches!(
        run_tcp_loopback(&mut s, Event::Completed),
        Action::RunBenchmark { child_ready: true }
    ));
    assert!(matches!(run_tcp_loopback(&mut s, Event::Completed), Action::ShutDownChild));
    let a = run_tcp_loopback(
        &mut s,
        Event::ChildExited { success: true, status: "exit code: 0".to_string() },
    );
    assert!(matches!(a, Action::PrintReport));
    assert_eq!(s.stage, Stage::Done);
    assert!(!s.accepts(&Event::Completed));
}

#[test]
fn unexpected_ready_line_fails() {
    let mut s = Session::new();
    run_placeholder(&mut s, launched(&[]));
    run_placeholder(&mut s, Event::Completed);
    let a = run_placeholder(&mut s, Event::ChildReady { line: "hello".to_string() });
    assert_eq!(fail_text(a), "unexpected child readiness message `hello`");
    let mut s = Session::new();
    run_tcp_loopback(&mut s, launched(&[]));
    run_tcp_loopback(&mut s, Event::Completed);
    let a = run_tcp_loopback(&mut s, Event::ChildReady { line: "ready".to_string() });
    assert_eq!(fail_text(a), "unexpected child readiness message `ready`");
}

#[test]
fn child_failure_is_reported() {
    let mut s = Session::new();
    run_named_pipe(NamedPipeKind::Overlapped, &mut s, launched(&[]));
    run_named_pipe(NamedPipeKind::Overlapped, &mut s, Event::Completed);
    run_named_pipe(NamedPipeKind::Overlapped, &mut s, Event::ChildReady { line: "ready".into() });
    run_named_pipe(NamedPipeKind::Overlapped, &mut s, Event::Completed);
    run_named_pipe(NamedPipeKind::Overlapped, &mut s, Event::Completed);
    let a = run_named_pipe(
        NamedPipeKind::Overlapped,
        &mut s,
        Event::ChildExited { success: false, status: "exit code: 1".into() },
    );
    assert_eq!(fail_text(a), "child exited with status exit code: 1");
}

#[test]
fn anon_pipe_skips_readiness() {
    let mut s = Session::new();
    assert!(matches!(run_anon_pipe(&mut s, launched(&[])), Action::SpawnChild));
    assert!(matches!(
        run_anon_pipe(&mut s, Event::Completed),
        Action::RunBenchmark { child_ready: false }
    ));
    assert!(matches!(run_anon_pipe(&mut s, Event::Completed), Action::ShutDownChild));
}

#[test]
fn copy_roundtrip_has_no_child() {
    let mut s = Session::new();
    assert!(matches!(
        run_copy_roundtrip(&mut s, launched(&["--format", "json"])),
        Action::RunBenchmark { child_ready: false }
    ));
    assert_eq!(s.config.output_format, OutputFormat::Json);
    assert!(matches!(run_copy_roundtrip(&mut s, Event::Completed), Action::PrintReport));
    let mut s = Session::new();
    let a = run_copy_roundtrip(&mut s, launched(&["--role", "child"]));
    assert_eq!(fail_text(a), "copy-roundtrip does not use a child role");
}

#[test]
fn child_role_serves_with_parent_configuration() {
    let parent = BenchmarkConfig {
        message_count: 5,
        message_size: 64,
        warmup_count: 0,
        trials: 1,
        output_format: OutputFormat::Text,
        role: ProcessRole::Parent,
    };
    let mut s = Session::new();
    let a = run_udp_loopback(
        &mut s,
        Event::Launched { args: parent.child_args(), program_name: "udp".into() },
    );
    assert!(matches!(a, Action::ServeAsChild));
    assert_eq!(s.config, BenchmarkConfig { role: ProcessRole::Child, ..parent });
}

#[test]
fn method_checks_come_before_the_role() {
    let mut s = Session::new();
    let a = run_udp_loopback(&mut s, launched(&["-s", "70000", "--role", "child"]));
    assert_eq!(fail_text(a), "udp-loopback supports message sizes up to 65507 bytes, got 70000");
    let mut s = Session::new();
    let a = run_alpc(40, &mut s, launched(&["-s", "32728"]));
    assert_eq!(
        fail_text(a),
        "alpc supports message sizes up to 32727 bytes on this build, got 32728"
    );
    let mut s = Session::new();
    let a = run_alpc(40, &mut s, launched(&["-c", "0", "-s", "99999"]));
    assert_eq!(fail_text(a), "message count must be greater than zero");
}

#[test]
fn outside_failures_end_the_run() {
    let mut s = Session::new();
    run_tcp_loopback(&mut s, launched(&[]));
    let a = run_tcp_loopback(&mut s, Event::Failed { message: "spawn failed".into() });
    assert_eq!(fail_text(a), "spawn failed");
    assert_eq!(s.stage, Stage::Done);
}

#[test]
fn session_accepts_only_expected_events() {
    let s = Session::new();
    assert!(s.accepts(&launched(&[])));
    assert!(!s.accepts(&Event::Completed));
    assert!(s.accepts(&Event::Failed { message: String::new() }));
}

#[test]
fn method_names_and_quiet_errors() {
    assert_eq!(Method::ShmRing(WaitStrategy::Hybrid).name(), "shm-ring-hybrid");
    assert_eq!(Method::ShmMailbox(WaitStrategy::Spin).name(), "shm-mailbox-spin");
    assert_eq!(Method::NamedPipe(NamedPipeKind::MessageSync).name(), "named-pipe-message-sync");
    assert!(Method::TcpLoopback.echo_error_ends_quietly(StreamErrorKind::ConnectionReset, false));
    assert!(!Method::AnonPipe.echo_error_ends_quietly(StreamErrorKind::ConnectionReset, false));
    assert!(Method::NamedPipe(NamedPipeKind::ByteSync)
        .echo_error_ends_quietly(StreamErrorKind::Other, true));
    assert!(Method::UdpLoopback.echo_error_ends_quietly(StreamErrorKind::Interrupted, false));
    assert!(Method::AfUnix.echo_error_ends_quietly(StreamErrorKind::BrokenPipe, false));
    assert!(!Method::Rpc.echo_error_ends_quietly(StreamErrorKind::UnexpectedEof, false));
}
