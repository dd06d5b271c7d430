//! The decisions of one benchmark process, as a state machine that the
//! executable drives: it reports each outcome of the outside work (an event)
//! and performs the action that comes back. The same machine serves every
//! method; what differs between methods is named by `Method`.
//!
//! A parent process reads its configuration, spawns the child, waits for the
//! child's ready line, opens its transport, runs the benchmark, shuts the
//! child down and prints the report once the child exited cleanly. A child
//! process reads its configuration and serves. Any failure of the outside
//! work ends the run with that failure's text.

use vstd::prelude::*;

use crate::alpc::{alpc_size_error_text, max_alpc_payload, validate_alpc_message_size};
use crate::config::{
    default_config, lemma_role_args_round_trip, parse_config, role_args, texts, BenchmarkConfig,
    ProcessRole,
};
use crate::protocol::{
    check_ready, parse_ready_port, ready_port_spec, udp_size_error_text,
    unexpected_readiness_text, validate_udp_message_size, NamedPipeKind, StreamErrorKind,
    MAX_UDP_PAYLOAD, READY_LINE, READY_PORT_PREFIX,
};
use crate::number_text::decimal_text;
use crate::shared_memory::WaitStrategy;

verus! {

/// The benchmark methods.
#[derive(Clone, Copy, Debug, PartialEq, Eq, Structural)]
pub enum Method {
    Placeholder,
    CopyRoundtrip,
    AnonPipe,
    NamedPipe(NamedPipeKind),
    TcpLoopback,
    UdpLoopback,
    AfUnix,
    /// ALPC, whose port-message header has `header_size` bytes.
    Alpc { header_size: usize },
    Rpc,
    ShmEvents,
    ShmSemaphores,
    ShmMailbox(WaitStrategy),
    ShmRing(WaitStrategy),
}

/// Where a process is in its run.
#[derive(Clone, Copy, Debug, PartialEq, Eq, Structural)]
pub enum Stage {
    /// Nothing has happened yet.
    Start,
    /// The parent is spawning the child.
    Spawning,
    /// The parent waits for the child's ready line.
    AwaitingReady,
    /// The parent opens its side of the transport.
    Connecting,
    /// The benchmark runs.
    Benchmarking,
    /// The parent shuts the child down and waits for it to exit.
    Stopping,
    /// The run is over.
    Done,
}

/// The outcome of the outside work, reported to the machine.
pub enum Event {
    /// The process started with these command-line arguments; `program_name`
    /// is the name its usage text shows.
    Launched { args: Vec<String>, program_name: String },
    /// The action asked for last finished.
    Completed,
    /// The child printed this ready line.
    ChildReady { line: String },
    /// The child exited, cleanly or not; `status` describes how.
    ChildExited { success: bool, status: String },
    /// The outside work failed with this text.
    Failed { message: String },
}

/// What the machine asks the executable to do next.
pub enum Action {
    /// End the run with this failure text.
    Fail { message: String },
    /// Spawn the child with the configuration's child arguments.
    SpawnChild,
    /// Read the child's ready line.
    AwaitReady,
    /// Open the parent's side of the transport, at `port` when the child
    /// announced one.
    OpenTransport { port: Option<u16> },
    /// Run the warmups and the measured trials; `child_ready` says whether a
    /// child signalled readiness.
    RunBenchmark { child_ready: bool },
    /// Close the child's input and wait for it to exit.
    ShutDownChild,
    /// Print the report in the configured format; the run succeeded.
    PrintReport,
    /// Serve as the child with the configuration read.
    ServeAsChild,
}

/// An event, with its texts as character sequences.
pub enum EventView {
    Launched { args: Seq<Seq<char>>, program_name: Seq<char> },
    Completed,
    ChildReady { line: Seq<char> },
    ChildExited { success: bool, status: Seq<char> },
    Failed { message: Seq<char> },
}

/// An action, with its text as a character sequence.
pub enum ActionView {
    Fail { message: Seq<char> },
    SpawnChild,
    AwaitReady,
    OpenTransport { port: Option<u16> },
    RunBenchmark { child_ready: bool },
    ShutDownChild,
    PrintReport,
    ServeAsChild,
}

impl View for Event {
    type V = EventView;

    open spec fn view(&self) -> EventView {
        match self {
            Event::Launched { args, program_name } => EventView::Launched {
                args: texts(args@),
                program_name: program_name@,
            },
            Event::Completed => EventView::Completed,
            Event::ChildReady { line } => EventView::ChildReady { line: line@ },
            Event::ChildExited { success, status } => EventView::ChildExited {
                success: *success,
                status: status@,
            },
            Event::Failed { message } => EventView::Failed { message: message@ },
        }
    }
}

impl View for Action {
    type V = ActionView;

    open spec fn view(&self) -> ActionView {
        match self {
            Action::Fail { message } => ActionView::Fail { message: message@ },
            Action::SpawnChild => ActionView::SpawnChild,
            Action::AwaitReady => ActionView::AwaitReady,
            Action::OpenTransport { port } => ActionView::OpenTransport { port: *port },
            Action::RunBenchmark { child_ready } => ActionView::RunBenchmark {
                child_ready: *child_ready,
            },
            Action::ShutDownChild => ActionView::ShutDownChild,
            Action::PrintReport => ActionView::PrintReport,
            Action::ServeAsChild => ActionView::ServeAsChild,
        }
    }
}

/// The name reports show for a method.
pub open spec fn method_name(m: Method) -> Seq<char> {
    match m {
        Method::Placeholder => "placeholder"@,
        Method::CopyRoundtrip => "copy-roundtrip"@,
        Method::AnonPipe => "anon-pipe"@,
        Method::NamedPipe(NamedPipeKind::ByteSync) => "named-pipe-byte-sync"@,
        Method::NamedPipe(NamedPipeKind::MessageSync) => "named-pipe-message-sync"@,
        Method::NamedPipe(NamedPipeKind::Overlapped) => "named-pipe-overlapped"@,
        Method::TcpLoopback => "tcp-loopback"@,
        Method::UdpLoopback => "udp-loopback"@,
        Method::AfUnix => "af-unix"@,
        Method::Alpc { .. } => "alpc"@,
        Method::Rpc => "rpc"@,
        Method::ShmEvents => "shm-events"@,
        Method::ShmSemaphores => "shm-semaphores"@,
        Method::ShmMailbox(WaitStrategy::Spin) => "shm-mailbox-spin"@,
        Method::ShmMailbox(WaitStrategy::Hybrid) => "shm-mailbox-hybrid"@,
        Method::ShmRing(WaitStrategy::Spin) => "shm-ring-spin"@,
        Method::ShmRing(WaitStrategy::Hybrid) => "shm-ring-hybrid"@,
    }
}

/// Whether the method runs a child process.
pub open spec fn has_child(m: Method) -> bool {
    m != Method::CopyRoundtrip
}

/// Whether the parent waits for a ready line from the child.
pub open spec fn awaits_ready(m: Method) -> bool {
    m != Method::CopyRoundtrip && m != Method::AnonPipe
}

/// Whether the child's ready line carries a port.
pub open spec fn ready_with_port(m: Method) -> bool {
    m == Method::TcpLoopback || m == Method::UdpLoopback
}

/// The method's own check of a configuration, made before the role is
/// looked at: the text of the problem, if any.
pub open spec fn method_check(m: Method, c: BenchmarkConfig) -> Option<Seq<char>> {
    match m {
        Method::UdpLoopback => if c.message_size > MAX_UDP_PAYLOAD {
            Some(udp_size_error_text(c.message_size as nat))
        } else {
            None
        },
        Method::Alpc { header_size } => if c.message_size > max_alpc_payload(header_size as int) {
            Some(
                alpc_size_error_text(
                    max_alpc_payload(header_size as int) as nat,
                    c.message_size as nat,
                ),
            )
        } else {
            None
        },
        _ => None,
    }
}

/// What the parent makes of the child's ready line: the announced port, if
/// the method announces one, or the text of the problem.
pub open spec fn readiness_outcome(m: Method, line: Seq<char>) -> Result<Option<u16>, Seq<char>> {
    if ready_with_port(m) {
        match ready_port_spec(line) {
            Ok(p) => Ok(Some(p as u16)),
            Err(e) => Err(e),
        }
    } else if line == READY_LINE@ {
        Ok(None)
    } else {
        Err(unexpected_readiness_text(line))
    }
}

pub open spec fn no_child_role_text() -> Seq<char> {
    "copy-roundtrip does not use a child role"@
}

pub open spec fn child_exit_text(status: Seq<char>) -> Seq<char> {
    "child exited with status "@ + status
}

/// The first decisions of a run, from its command-line arguments.
pub open spec fn launch_step(m: Method, c0: BenchmarkConfig, args: Seq<Seq<char>>, program: Seq<char>) -> (Stage, BenchmarkConfig, ActionView) {
    match parse_config(args, program) {
        Err(msg) => (Stage::Done, c0, ActionView::Fail { message: msg }),
        Ok(c) => match method_check(m, c) {
            Some(msg) => (Stage::Done, c, ActionView::Fail { message: msg }),
            None => if c.role == ProcessRole::Parent {
                if has_child(m) {
                    (Stage::Spawning, c, ActionView::SpawnChild)
                } else {
                    (Stage::Benchmarking, c, ActionView::RunBenchmark { child_ready: false })
                }
            } else if has_child(m) {
                (Stage::Done, c, ActionView::ServeAsChild)
            } else {
                (Stage::Done, c, ActionView::Fail { message: no_child_role_text() })
            },
        },
    }
}

/// The events the machine takes in each stage: a failure in any stage but
/// the last, and otherwise the outcome of the action it asked for.
pub open spec fn accepts_spec(stage: Stage, e: EventView) -> bool {
    &&& stage != Stage::Done
    &&& (e is Failed || match stage {
        Stage::Start => e is Launched,
        Stage::Spawning => e is Completed,
        Stage::AwaitingReady => e is ChildReady,
        Stage::Connecting => e is Completed,
        Stage::Benchmarking => e is Completed,
        Stage::Stopping => e is ChildExited,
        Stage::Done => false,
    })
}

/// The next stage, configuration and action of method `m`'s machine, for an
/// event it takes.
pub open spec fn session_step(m: Method, stage: Stage, c: BenchmarkConfig, e: EventView) -> (Stage, BenchmarkConfig, ActionView) {
    match e {
        EventView::Failed { message } => (Stage::Done, c, ActionView::Fail { message }),
        EventView::Launched { args, program_name } => launch_step(m, c, args, program_name),
        EventView::ChildReady { line } => match readiness_outcome(m, line) {
            Ok(port) => (Stage::Connecting, c, ActionView::OpenTransport { port }),
            Err(msg) => (Stage::Done, c, ActionView::Fail { message: msg }),
        },
        EventView::ChildExited { success, status } => if success {
            (Stage::Done, c, ActionView::PrintReport)
        } else {
            (Stage::Done, c, ActionView::Fail { message: child_exit_text(status) })
        },
        EventView::Completed => match stage {
            Stage::Spawning => if awaits_ready(m) {
                (Stage::AwaitingReady, c, ActionView::AwaitReady)
            } else {
                (Stage::Benchmarking, c, ActionView::RunBenchmark { child_ready: false })
            },
            Stage::Connecting => (Stage::Benchmarking, c, ActionView::RunBenchmark { child_ready: true }),
            _ => if has_child(m) {
                (Stage::Stopping, c, ActionView::ShutDownChild)
            } else {
                (Stage::Done, c, ActionView::PrintReport)
            },
        },
    }
}

/// Law: the order of a run. A report is printed only after a child exited
/// cleanly, or, for a method without a child, after its benchmark; the
/// benchmark runs with a ready child only once the parent's transport is
/// open; a failure always ends the run; and only a parent spawns a child.
pub proof fn lemma_session_order(m: Method, stage: Stage, c: BenchmarkConfig, e: EventView)
    requires
        accepts_spec(stage, e),
    ensures
        ({
            let (next, c2, a) = session_step(m, stage, c, e);
            &&& (a is PrintReport ==> (e matches EventView::ChildExited { success, .. } && success)
                || (!has_child(m) && stage == Stage::Benchmarking))
            &&& (a == ActionView::RunBenchmark { child_ready: true } ==> stage == Stage::Connecting)
            &&& (a is Fail ==> next == Stage::Done)
            &&& (a is SpawnChild ==> c2.role == ProcessRole::Parent && stage == Stage::Start)
            &&& (a is ServeAsChild ==> c2.role == ProcessRole::Child && next == Stage::Done)
        }),
{
}

/// Law: a child launched with the arguments its parent hands on serves with
/// the parent's configuration (in the child role), for every configuration
/// that the parent itself was able to run with.
pub proof fn lemma_child_runs_parent_config(m: Method, c: BenchmarkConfig, c0: BenchmarkConfig, program: Seq<char>)
    requires
        has_child(m),
        c.message_count > 0,
        c.trials > 0,
        method_check(m, c) is None,
    ensures
        launch_step(m, c0, role_args(c, ProcessRole::Child), program) == (
            Stage::Done,
            BenchmarkConfig { role: ProcessRole::Child, ..c },
            ActionView::ServeAsChild,
        ),
{
    lemma_role_args_round_trip(c, ProcessRole::Child, program);
    let cc = BenchmarkConfig { role: ProcessRole::Child, ..c };
    assert(method_check(m, cc) == method_check(m, c));
}

/// Law: only the copy-only baseline runs without a child. For every other
/// method, a launch whose arguments parse and pass the method's check makes
/// a parent spawn its child and a child serve; the baseline benchmarks at
/// once as a parent and refuses the child role. Once a benchmark with a
/// child is over, the parent shuts the child down.
pub proof fn lemma_every_method_but_the_baseline_has_a_child(
    m: Method,
    c0: BenchmarkConfig,
    args: Seq<Seq<char>>,
    program: Seq<char>,
)
    requires
        parse_config(args, program) is Ok,
        method_check(m, parse_config(args, program)->Ok_0) is None,
    ensures
        ({
            let c = parse_config(args, program)->Ok_0;
            let launch = EventView::Launched { args, program_name: program };
            &&& m != Method::CopyRoundtrip && c.role == ProcessRole::Parent ==> session_step(
                m,
                Stage::Start,
                c0,
                launch,
            ) == (Stage::Spawning, c, ActionView::SpawnChild)
            &&& m != Method::CopyRoundtrip && c.role == ProcessRole::Child ==> session_step(
                m,
                Stage::Start,
                c0,
                launch,
            ) == (Stage::Done, c, ActionView::ServeAsChild)
            &&& m == Method::CopyRoundtrip && c.role == ProcessRole::Parent ==> session_step(
                m,
                Stage::Start,
                c0,
                launch,
            ) == (Stage::Benchmarking, c, ActionView::RunBenchmark { child_ready: false })
            &&& m == Method::CopyRoundtrip && c.role == ProcessRole::Child ==> session_step(
                m,
                Stage::Start,
                c0,
                launch,
            ).2 is Fail
            &&& m != Method::CopyRoundtrip ==> session_step(
                m,
                Stage::Benchmarking,
                c0,
                EventView::Completed,
            ) == (Stage::Stopping, c0, ActionView::ShutDownChild)
        }),
{
}

/// Law: once the child is spawned, the parent waits for its ready line, for
/// every method whose child prints one: all but the copy-only baseline and
/// the anonymous pipe, whose child is ready as soon as it runs.
pub proof fn lemma_spawned_child_is_awaited(m: Method, c: BenchmarkConfig)
    ensures
        m != Method::CopyRoundtrip && m != Method::AnonPipe ==> session_step(
            m,
            Stage::Spawning,
            c,
            EventView::Completed,
        ) == (Stage::AwaitingReady, c, ActionView::AwaitReady),
        m == Method::AnonPipe ==> session_step(m, Stage::Spawning, c, EventView::Completed) == (
            Stage::Benchmarking,
            c,
            ActionView::RunBenchmark { child_ready: false },
        ),
{
}

/// Law: the children of the TCP and UDP loopback benchmarks announce their
/// port: a line `ready:` followed by the decimal text of a port reads as
/// that port, and the parent opens its transport at it. Every other method's
/// child says just `ready`, which opens the transport without a port.
pub proof fn lemma_ready_lines(m: Method, c: BenchmarkConfig, port: u16)
    ensures
        m == Method::TcpLoopback || m == Method::UdpLoopback ==> readiness_outcome(
            m,
            "ready:"@ + decimal_text(port as nat),
        ) == Ok::<Option<u16>, Seq<char>>(Some(port)),
        m == Method::TcpLoopback || m == Method::UdpLoopback ==> session_step(
            m,
            Stage::AwaitingReady,
            c,
            EventView::ChildReady { line: "ready:"@ + decimal_text(port as nat) },
        ) == (Stage::Connecting, c, ActionView::OpenTransport { port: Some(port) }),
        m != Method::TcpLoopback && m != Method::UdpLoopback ==> readiness_outcome(m, "ready"@)
            == Ok::<Option<u16>, Seq<char>>(None),
        m != Method::TcpLoopback && m != Method::UdpLoopback ==> session_step(
            m,
            Stage::AwaitingReady,
            c,
            EventView::ChildReady { line: "ready"@ },
        ) == (Stage::Connecting, c, ActionView::OpenTransport { port: None }),
{
    reveal_strlit("ready:");
    reveal_strlit("ready");
    assert(READY_PORT_PREFIX@ == "ready:"@);
    crate::protocol::lemma_ready_port_round_trip(port);
    assert(READY_LINE@ == "ready"@);
}

/// Whether two methods are the same benchmark (ALPC is one benchmark
/// whatever its header size).
pub open spec fn same_benchmark(m1: Method, m2: Method) -> bool {
    m1 == m2 || (m1 is Alpc && m2 is Alpc)
}

/// Law: reports name each method as the method table of the suite does:
/// the shared-memory mailbox signalled by events is `shm-events`, the one
/// signalled by semaphores `shm-semaphores`, a mailbox or ring that waits by
/// spinning or by spinning then yielding ends in `-spin` or `-hybrid`, a
/// named pipe ends in its kind, and so on; and different benchmarks have
/// different names.
pub proof fn lemma_method_names(m1: Method, m2: Method)
    ensures
        method_name(Method::Placeholder) == "placeholder"@,
        method_name(Method::CopyRoundtrip) == "copy-roundtrip"@,
        method_name(Method::AnonPipe) == "anon-pipe"@,
        method_name(Method::NamedPipe(NamedPipeKind::ByteSync)) == "named-pipe-"@ + "byte-sync"@,
        method_name(Method::NamedPipe(NamedPipeKind::MessageSync)) == "named-pipe-"@ + "message-sync"@,
        method_name(Method::NamedPipe(NamedPipeKind::Overlapped)) == "named-pipe-"@ + "overlapped"@,
        method_name(Method::TcpLoopback) == "tcp-loopback"@,
        method_name(Method::UdpLoopback) == "udp-loopback"@,
        method_name(Method::AfUnix) == "af-unix"@,
        method_name(m1) == "alpc"@ <==> m1 is Alpc,
        method_name(Method::Rpc) == "rpc"@,
        method_name(Method::ShmEvents) == "shm-"@ + "events"@,
        method_name(Method::ShmSemaphores) == "shm-"@ + "semaphores"@,
        method_name(Method::ShmMailbox(WaitStrategy::Spin)) == "shm-mailbox-"@ + "spin"@,
        method_name(Method::ShmMailbox(WaitStrategy::Hybrid)) == "shm-mailbox-"@ + "hybrid"@,
        method_name(Method::ShmRing(WaitStrategy::Spin)) == "shm-ring-"@ + "spin"@,
        method_name(Method::ShmRing(WaitStrategy::Hybrid)) == "shm-ring-"@ + "hybrid"@,
        method_name(m1) == method_name(m2) <==> same_benchmark(m1, m2),
{
    reveal_strlit("placeholder");
    reveal_strlit("copy-roundtrip");
    reveal_strlit("anon-pipe");
    reveal_strlit("named-pipe-byte-sync");
    reveal_strlit("named-pipe-message-sync");
    reveal_strlit("named-pipe-overlapped");
    reveal_strlit("named-pipe-");
    reveal_strlit("byte-sync");
    reveal_strlit("message-sync");
    reveal_strlit("overlapped");
    reveal_strlit("tcp-loopback");
    reveal_strlit("udp-loopback");
    reveal_strlit("af-unix");
    reveal_strlit("alpc");
    reveal_strlit("rpc");
    reveal_strlit("shm-events");
    reveal_strlit("shm-semaphores");
    reveal_strlit("shm-");
    reveal_strlit("events");
    reveal_strlit("semaphores");
    reveal_strlit("shm-mailbox-spin");
    reveal_strlit("shm-mailbox-hybrid");
    reveal_strlit("shm-ring-spin");
    reveal_strlit("shm-ring-hybrid");
    reveal_strlit("shm-mailbox-");
    reveal_strlit("shm-ring-");
    reveal_strlit("spin");
    reveal_strlit("hybrid");
    assert("named-pipe-"@ + "byte-sync"@ =~= "named-pipe-byte-sync"@);
    assert("named-pipe-"@ + "message-sync"@ =~= "named-pipe-message-sync"@);
    assert("named-pipe-"@ + "overlapped"@ =~= "named-pipe-overlapped"@);
    assert("shm-"@ + "events"@ =~= "shm-events"@);
    assert("shm-"@ + "semaphores"@ =~= "shm-semaphores"@);
    assert("shm-mailbox-"@ + "spin"@ =~= "shm-mailbox-spin"@);
    assert("shm-mailbox-"@ + "hybrid"@ =~= "shm-mailbox-hybrid"@);
    assert("shm-ring-"@ + "spin"@ =~= "shm-ring-spin"@);
    assert("shm-ring-"@ + "hybrid"@ =~= "shm-ring-hybrid"@);
    lemma_names_distinct(m1, m2);
    lemma_names_distinct(m1, Method::Alpc { header_size: 0 });
}

/// The length and three characters of a method's name, which already tell
/// the names apart.
spec fn name_key(m: Method) -> (nat, char, char, char) {
    let n = method_name(m);
    (n.len(), n[0], n[n.len() - 1], n[n.len() - 3])
}

proof fn lemma_names_distinct(m1: Method, m2: Method)
    ensures
        method_name(m1) == method_name(m2) ==> same_benchmark(m1, m2),
{
    reveal_strlit("placeholder");
    reveal_strlit("copy-roundtrip");
    reveal_strlit("anon-pipe");
    reveal_strlit("named-pipe-byte-sync");
    reveal_strlit("named-pipe-message-sync");
    reveal_strlit("named-pipe-overlapped");
    reveal_strlit("tcp-loopback");
    reveal_strlit("udp-loopback");
    reveal_strlit("af-unix");
    reveal_strlit("alpc");
    reveal_strlit("rpc");
    reveal_strlit("shm-events");
    reveal_strlit("shm-semaphores");
    reveal_strlit("shm-mailbox-spin");
    reveal_strlit("shm-mailbox-hybrid");
    reveal_strlit("shm-ring-spin");
    reveal_strlit("shm-ring-hybrid");
    if method_name(m1) == method_name(m2) {
        assert(name_key(m1) == name_key(m2));
    }
}

impl Method {
    /// The method's name, as reports show it.
    pub fn name(&self) -> (r: &'static str)
        ensures
            r@ == method_name(*self),
    {
        match self {
            Method::Placeholder => "placeholder",
            Method::CopyRoundtrip => "copy-roundtrip",
            Method::AnonPipe => "anon-pipe",
            Method::NamedPipe(NamedPipeKind::ByteSync) => "named-pipe-byte-sync",
            Method::NamedPipe(NamedPipeKind::MessageSync) => "named-pipe-message-sync",
            Method::NamedPipe(NamedPipeKind::Overlapped) => "named-pipe-overlapped",
            Method::TcpLoopback => "tcp-loopback",
            Method::UdpLoopback => "udp-loopback",
            Method::AfUnix => "af-unix",
            Method::Alpc { .. } => "alpc",
            Method::Rpc => "rpc",
            Method::ShmEvents => "shm-events",
            Method::ShmSemaphores => "shm-semaphores",
            Method::ShmMailbox(WaitStrategy::Spin) => "shm-mailbox-spin",
            Method::ShmMailbox(WaitStrategy::Hybrid) => "shm-mailbox-hybrid",
            Method::ShmRing(WaitStrategy::Spin) => "shm-ring-spin",
            Method::ShmRing(WaitStrategy::Hybrid) => "shm-ring-hybrid",
        }
    }

    /// Whether an error of kind `kind` (with `pipe_closed` telling whether
    /// its operating-system code means a gone pipe) ends the child's echo
    /// loop quietly, as the other end going away; any other error ends the
    /// child with that error.
    pub fn echo_error_ends_quietly(&self, kind: StreamErrorKind, pipe_closed: bool) -> (r: bool)
        ensures
            r == match self {
                Method::AnonPipe => kind == StreamErrorKind::UnexpectedEof,
                Method::TcpLoopback => kind == StreamErrorKind::UnexpectedEof || kind
                    == StreamErrorKind::ConnectionAborted || kind
                    == StreamErrorKind::ConnectionReset,
                Method::AfUnix => kind == StreamErrorKind::UnexpectedEof || kind
                    == StreamErrorKind::ConnectionReset || kind == StreamErrorKind::BrokenPipe,
                Method::UdpLoopback => kind == StreamErrorKind::ConnectionReset || kind
                    == StreamErrorKind::ConnectionAborted || kind
                    == StreamErrorKind::Interrupted,
                Method::NamedPipe(_) => pipe_closed || kind == StreamErrorKind::UnexpectedEof,
                _ => false,
            },
    {
        match self {
            Method::AnonPipe => kind == StreamErrorKind::UnexpectedEof,
            Method::TcpLoopback => kind == StreamErrorKind::UnexpectedEof || kind
                == StreamErrorKind::ConnectionAborted || kind == StreamErrorKind::ConnectionReset,
            Method::AfUnix => kind == StreamErrorKind::UnexpectedEof || kind
                == StreamErrorKind::ConnectionReset || kind == StreamErrorKind::BrokenPipe,
            Method::UdpLoopback => kind == StreamErrorKind::ConnectionReset || kind
                == StreamErrorKind::ConnectionAborted || kind == StreamErrorKind::Interrupted,
            Method::NamedPipe(_) => pipe_closed || kind == StreamErrorKind::UnexpectedEof,
            _ => false,
        }
    }

    /// The method's own check of a configuration.
    pub fn check(&self, c: &BenchmarkConfig) -> (r: Option<String>)
        ensures
            match r {
                Some(m) => method_check(*self, *c) == Some(m@),
                None => method_check(*self, *c) is None,
            },
    {
        match self {
            Method::UdpLoopback => match validate_udp_message_size(c.message_size) {
                Ok(()) => None,
                Err(m) => Some(m),
            },
            Method::Alpc { header_size } => match validate_alpc_message_size(
                c.message_size,
                *header_size,
            ) {
                Ok(()) => None,
                Err(m) => Some(m),
            },
            _ => None,
        }
    }

    /// What the parent makes of the child's ready line.
    pub fn readiness(&self, line: &str) -> (r: Result<Option<u16>, String>)
        ensures
            match r {
                Ok(p) => readiness_outcome(*self, line@) == Ok::<Option<u16>, Seq<char>>(p),
                Err(m) => readiness_outcome(*self, line@) == Err::<Option<u16>, Seq<char>>(m@),
            },
    {
        match self {
            Method::TcpLoopback | Method::UdpLoopback => match parse_ready_port(line) {
                Ok(p) => Ok(Some(p)),
                Err(m) => Err(m),
            },
            _ => match check_ready(line) {
                Ok(()) => Ok(None),
                Err(m) => Err(m),
            },
        }
    }
}

/// The state of one benchmark process.
pub struct Session {
    pub stage: Stage,
    pub config: BenchmarkConfig,
}

impl Session {
    /// A process that has not started yet, holding the default configuration.
    pub fn new() -> (r: Session)
        ensures
            r.stage == Stage::Start,
            r.config == default_config(),
    {
        Session { stage: Stage::Start, config: BenchmarkConfig::default() }
    }

    /// Whether the machine takes `event` in its current stage.
    pub fn accepts(&self, event: &Event) -> (r: bool)
        ensures
            r == accepts_spec(self.stage, event@),
    {
        if self.stage == Stage::Done {
            return false;
        }
        match event {
            Event::Failed { .. } => true,
            Event::Launched { .. } => self.stage == Stage::Start,
            Event::Completed => self.stage == Stage::Spawning || self.stage == Stage::Connecting
                || self.stage == Stage::Benchmarking,
            Event::ChildReady { .. } => self.stage == Stage::AwaitingReady,
            Event::ChildExited { .. } => self.stage == Stage::Stopping,
        }
    }

    /// Takes an event of method `method`'s run and gives the next action.
    pub fn step(&mut self, method: Method, event: Event) -> (a: Action)
        requires
            accepts_spec(old(self).stage, event@),
        ensures
            (final(self).stage, final(self).config, a@) == session_step(
                method,
                old(self).stage,
                old(self).config,
                event@,
            ),
    {
        match event {
            Event::Failed { message } => {
                self.stage = Stage::Done;
                Action::Fail { message }
            },
            Event::Launched { args, program_name } => {
                match BenchmarkConfig::from_args(args, program_name.as_str()) {
                    Err(message) => {
                        self.stage = Stage::Done;
                        Action::Fail { message }
                    },
                    Ok(c) => {
                        self.config = c;
                        match method.check(&c) {
                            Some(message) => {
                                self.stage = Stage::Done;
                                Action::Fail { message }
                            },
                            None => {
                                let with_child = method != Method::CopyRoundtrip;
                                if c.role == ProcessRole::Parent {
                                    if with_child {
                                        self.stage = Stage::Spawning;
                                        Action::SpawnChild
                                    } else {
                                        self.stage = Stage::Benchmarking;
                                        Action::RunBenchmark { child_ready: false }
                                    }
                                } else {
                                    self.stage = Stage::Done;
                                    if with_child {
                                        Action::ServeAsChild
                                    } else {
                                        Action::Fail {
                                            message: String::from_str(
                                                "copy-roundtrip does not use a child role",
                                            ),
                                        }
                                    }
                                }
                            },
                        }
                    },
                }
            },
            Event::ChildReady { line } => {
                match method.readiness(line.as_str()) {
                    Ok(port) => {
                        self.stage = Stage::Connecting;
                        Action::OpenTransport { port }
                    },
                    Err(message) => {
                        self.stage = Stage::Done;
                        Action::Fail { message }
                    },
                }
            },
            Event::ChildExited { success, status } => {
                self.stage = Stage::Done;
                if success {
                    Action::PrintReport
                } else {
                    let mut message = String::from_str("child exited with status ");
                    message.append(status.as_str());
                    Action::Fail { message }
                }
            },
            Event::Completed => {
                if self.stage == Stage::Spawning {
                    if method != Method::CopyRoundtrip && method != Method::AnonPipe {
                        self.stage = Stage::AwaitingReady;
                        Action::AwaitReady
                    } else {
                        self.stage = Stage::Benchmarking;
                        Action::RunBenchmark { child_ready: false }
                    }
                } else if self.stage == Stage::Connecting {
                    self.stage = Stage::Benchmarking;
                    Action::RunBenchmark { child_ready: true }
                } else if method != Method::CopyRoundtrip {
                    self.stage = Stage::Stopping;
                    Action::ShutDownChild
                } else {
                    self.stage = Stage::Done;
                    Action::PrintReport
                }
            },
        }
    }
}

/// One step of the placeholder benchmark (a harness smoke target that copies a buffer in place of any transport).
pub fn run_placeholder(session: &mut Session, event: Event) -> (a: Action)
    requires
        accepts_spec(old(session).stage, event@),
    ensures
        (final(session).stage, final(session).config, a@) == session_step(
            Method::Placeholder,
            old(session).stage,
            old(session).config,
            event@,
        ),
{
    session.step(Method::Placeholder, event)
}

/// One step of the copy-only baseline, which has no child.
pub fn run_copy_roundtrip(session: &mut Session, event: Event) -> (a: Action)
    requires
        accepts_spec(old(session).stage, event@),
    ensures
        (final(session).stage, final(session).config, a@) == session_step(
            Method::CopyRoundtrip,
            old(session).stage,
            old(session).config,
            event@,
        ),
{
    session.step(Method::CopyRoundtrip, event)
}

/// One step of the anonymous-pipe benchmark.
pub fn run_anon_pipe(session: &mut Session, event: Event) -> (a: Action)
    requires
        accepts_spec(old(session).stage, event@),
    ensures
        (final(session).stage, final(session).config, a@) == session_step(
            Method::AnonPipe,
            old(session).stage,
            old(session).config,
            event@,
        ),
{
    session.step(Method::AnonPipe, event)
}

/// One step of a named-pipe benchmark of the given kind.
pub fn run_named_pipe(kind: NamedPipeKind, session: &mut Session, event: Event) -> (a: Action)
    requires
        accepts_spec(old(session).stage, event@),
    ensures
        (final(session).stage, final(session).config, a@) == session_step(
            Method::NamedPipe(kind),
            old(session).stage,
            old(session).config,
            event@,
        ),
{
    session.step(Method::NamedPipe(kind), event)
}

/// One step of the TCP loopback benchmark.
pub fn run_tcp_loopback(session: &mut Session, event: Event) -> (a: Action)
    requires
        accepts_spec(old(session).stage, event@),
    ensures
        (final(session).stage, final(session).config, a@) == session_step(
            Method::TcpLoopback,
            old(session).stage,
            old(session).config,
            event@,
        ),
{
    session.step(Method::TcpLoopback, event)
}

/// One step of the UDP loopback benchmark.
pub fn run_udp_loopback(session: &mut Session, event: Event) -> (a: Action)
    requires
        accepts_spec(old(session).stage, event@),
    ensures
        (final(session).stage, final(session).config, a@) == session_step(
            Method::UdpLoopback,
            old(session).stage,
            old(session).config,
            event@,
        ),
{
    session.step(Method::UdpLoopback, event)
}

/// One step of the AF_UNIX socket benchmark.
pub fn run_af_unix(session: &mut Session, event: Event) -> (a: Action)
    requires
        accepts_spec(old(session).stage, event@),
    ensures
        (final(session).stage, final(session).config, a@) == session_step(
            Method::AfUnix,
            old(session).stage,
            old(session).config,
            event@,
        ),
{
    session.step(Method::AfUnix, event)
}

/// One step of the ALPC benchmark, whose port-message header has `header_size` bytes.
pub fn run_alpc(header_size: usize, session: &mut Session, event: Event) -> (a: Action)
    requires
        accepts_spec(old(session).stage, event@),
    ensures
        (final(session).stage, final(session).config, a@) == session_step(
            Method::Alpc { header_size },
            old(session).stage,
            old(session).config,
            event@,
        ),
{
    session.step(Method::Alpc { header_size }, event)
}

/// One step of the RPC benchmark.
pub fn run_rpc(session: &mut Session, event: Event) -> (a: Action)
    requires
        accepts_spec(old(session).stage, event@),
    ensures
        (final(session).stage, final(session).config, a@) == session_step(
            Method::Rpc,
            old(session).stage,
            old(session).config,
            event@,
        ),
{
    session.step(Method::Rpc, event)
}

/// One step of the shared-memory benchmark signalled by events.
pub fn run_shm_events(session: &mut Session, event: Event) -> (a: Action)
    requires
        accepts_spec(old(session).stage, event@),
    ensures
        (final(session).stage, final(session).config, a@) == session_step(
            Method::ShmEvents,
            old(session).stage,
            old(session).config,
            event@,
        ),
{
    session.step(Method::ShmEvents, event)
}

/// One step of the shared-memory benchmark signalled by semaphores.
pub fn run_shm_semaphores(session: &mut Session, event: Event) -> (a: Action)
    requires
        accepts_spec(old(session).stage, event@),
    ensures
        (final(session).stage, final(session).config, a@) == session_step(
            Method::ShmSemaphores,
            old(session).stage,
            old(session).config,
            event@,
        ),
{
    session.step(Method::ShmSemaphores, event)
}

/// One step of the shared-memory mailbox benchmark that waits by `strategy`.
pub fn run_shm_mailbox(strategy: WaitStrategy, session: &mut Session, event: Event) -> (a: Action)
    requires
        accepts_spec(old(session).stage, event@),
    ensures
        (final(session).stage, final(session).config, a@) == session_step(
            Method::ShmMailbox(strategy),
            old(session).stage,
            old(session).config,
            event@,
        ),
{
    session.step(Method::ShmMailbox(strategy), event)
}

/// One step of the shared-memory ring benchmark that waits by `strategy`.
pub fn run_shm_ring(strategy: WaitStrategy, session: &mut Session, event: Event) -> (a: Action)
    requires
        accepts_spec(old(session).stage, event@),
    ensures
        (final(session).stage, final(session).config, a@) == session_step(
            Method::ShmRing(strategy),
            old(session).stage,
            old(session).config,
            event@,
        ),
{
    session.step(Method::ShmRing(strategy), event)
}

} // verus!
