# ipc_bench

The verified core of a Windows IPC round-trip benchmark suite (anonymous and
named pipes, TCP/UDP loopback, AF_UNIX, shared-memory mailboxes and rings,
ALPC, RPC, and a copy-only baseline).

- `src/` is the library, verified with Verus:
  - `number_text` — decimal/hex texts, parsing as `str::parse` does for
    unsigned integers, formatting as `{}` and `{:08X}` do;
  - `config` — the shared command-line grammar, defaults, usage text, and the
    arguments handed to a child (with the round-trip law);
  - `stats` — how a trial's round trips are split into timed batches;
  - `shared_memory` — mailbox and ring layouts, ring push/pop decisions with
    the FIFO laws, wait strategies;
  - `alpc` — ALPC message sizing, the bytes of a message about to be sent,
    the echoing side's and the parent's checks of received messages, and
    status texts;
  - `word_bytes` — the bytes of a word buffer in memory order, and packing
    a byte image into words;
  - `protocol` — the ping-pong message contract and readiness lines;
  - `session` — the per-method process state machine (`run_*`);
  - `transfer` — progress of moving a whole message;
  - `util` — UTF-16 names, gone-pipe error codes, the step after an
    overlapped pipe call, unique names.
- `app/` is the executable side: process spawning, sockets, pipes, shared
  memory and Native API calls, timing, floating-point statistics, and report
  rendering with serde. It drives the library's session machine.
- `tests/` exercises the library on concrete values.
