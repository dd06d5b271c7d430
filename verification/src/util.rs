//! Small shared rules: the zero-terminated UTF-16 form of a name, and which
//! operating-system errors mean that the other end of a pipe has gone.

use vstd::prelude::*;

use crate::number_text::{chars_of, decimal_text, format_decimal};

verus! {

/// The UTF-16 code units of one character: itself below `0x10000`, a
/// surrogate pair above.
pub open spec fn utf16_units(c: char) -> Seq<u16> {
    let v = c as u32 as int;
    if v < 0x10000 {
        seq![v as u16]
    } else {
        seq![(0xD800 + (v - 0x10000) / 0x400) as u16, (0xDC00 + (v - 0x10000) % 0x400) as u16]
    }
}

/// The UTF-16 encoding of a text.
pub open spec fn utf16_encode(s: Seq<char>) -> Seq<u16>
    decreases s.len(),
{
    if s.len() == 0 {
        Seq::empty()
    } else {
        utf16_encode(s.drop_last()) + utf16_units(s.last())
    }
}

pub open spec fn is_high_surrogate(u: u16) -> bool {
    0xD800 <= u <= 0xDBFF
}

pub open spec fn is_low_surrogate(u: u16) -> bool {
    0xDC00 <= u <= 0xDFFF
}

/// The character that a high and a low surrogate stand for together.
pub open spec fn surrogate_pair_char(high: u16, low: u16) -> char {
    (0x10000 + (high - 0xD800) * 0x400 + (low - 0xDC00)) as u32 as char
}

/// The text that UTF-16 code units stand for, or `None` when they are not
/// well-formed UTF-16 (a surrogate that is not part of a high-low pair).
pub open spec fn utf16_decode(u: Seq<u16>) -> Option<Seq<char>>
    decreases u.len(),
{
    if u.len() == 0 {
        Some(Seq::empty())
    } else if u.len() >= 2 && is_high_surrogate(u[u.len() - 2]) && is_low_surrogate(u.last()) {
        match utf16_decode(u.subrange(0, u.len() - 2)) {
            Some(t) => Some(t.push(surrogate_pair_char(u[u.len() - 2], u.last()))),
            None => None,
        }
    } else if is_high_surrogate(u.last()) || is_low_surrogate(u.last()) {
        None
    } else {
        match utf16_decode(u.drop_last()) {
            Some(t) => Some(t.push(u.last() as u32 as char)),
            None => None,
        }
    }
}

/// Law: decoding the UTF-16 encoding of a text gives the text back.
pub proof fn lemma_utf16_round_trip(s: Seq<char>)
    ensures
        utf16_decode(utf16_encode(s)) == Some(s),
    decreases s.len(),
{
    if s.len() > 0 {
        let p = s.drop_last();
        let c = s.last();
        let e = utf16_encode(p);
        let u = utf16_encode(s);
        lemma_utf16_round_trip(p);
        vstd::utf8::char_is_scalar(c);
        let v = c as u32;
        vstd::utf8::char_u32_cast(c, v);
        assert(u == e + utf16_units(c));
        if (v as int) < 0x10000 {
            assert(u.drop_last() =~= e);
            assert(u.last() == v as u16);
            assert((v as u16) as u32 == v);
            assert(p.push(c) =~= s);
        } else {
            let q = (v - 0x10000) / 0x400;
            let r = (v - 0x10000) % 0x400;
            assert(q <= 0x3FF);
            assert(u.subrange(0, u.len() - 2) =~= e);
            assert(u[u.len() - 2] == (0xD800 + q) as u16);
            assert(u.last() == (0xDC00 + r) as u16);
            assert(0x10000 + q * 0x400 + r == v);
            assert(surrogate_pair_char(u[u.len() - 2], u.last()) == c);
            assert(p.push(c) =~= s);
        }
    }
}

/// Law: the units before the terminating zero of `wide_string(value)`
/// decode to `value`, and the last unit is the terminating zero.
pub proof fn lemma_wide_string_decodes(value: Seq<char>)
    ensures
        utf16_decode(utf16_encode(value).push(0u16).drop_last()) == Some(value),
        utf16_encode(value).push(0u16).last() == 0,
{
    assert(utf16_encode(value).push(0u16).drop_last() =~= utf16_encode(value));
    lemma_utf16_round_trip(value);
}

/// The UTF-16 encoding of `value`, followed by a terminating zero unit.
pub fn wide_string(value: &str) -> (r: Vec<u16>)
    ensures
        r@ == utf16_encode(value@).push(0u16),
{
    let chars = chars_of(value);
    let n = chars.len();
    let mut r: Vec<u16> = Vec::new();
    let mut i: usize = 0;
    while i < n
        invariant
            chars@ == value@,
            n == chars@.len(),
            i <= n,
            r@ == utf16_encode(value@.subrange(0, i as int)),
        decreases n - i,
    {
        let c = chars[i];
        proof {
            vstd::utf8::char_is_scalar(c);
        }
        let v = c as u32;
        let ghost before = r@;
        if v < 0x10000 {
            r.push(v as u16);
        } else {
            let u = v - 0x10000;
            assert(u / 0x400 <= 0x3FF);
            r.push((0xD800 + u / 0x400) as u16);
            r.push((0xDC00 + u % 0x400) as u16);
        }
        assert(r@ =~= before + utf16_units(c));
        assert(value@.subrange(0, i + 1).drop_last() =~= value@.subrange(0, i as int));
        i = i + 1;
    }
    assert(value@.subrange(0, n as int) =~= value@);
    r.push(0);
    r
}

/// A name that no other run uses: the prefix, the process id and the
/// current time in nanoseconds, joined by hyphens.
pub fn unique_name(prefix: &str, process_id: u32, nanos: u128) -> (r: String)
    ensures
        r@ == prefix@ + "-"@ + decimal_text(process_id as nat) + "-"@ + decimal_text(nanos as nat),
{
    let mut r = String::from_str(prefix);
    r.append("-");
    let p = format_decimal(process_id as u128);
    r.append(p.as_str());
    r.append("-");
    let t = format_decimal(nanos);
    r.append(t.as_str());
    r
}

/// The operating-system error codes that mean the other end of a pipe has
/// gone: a broken pipe (109), a pipe being closed (232), and no process at
/// the other end (233).
pub open spec fn pipe_closed_code(code: Option<i32>) -> bool {
    code == Some(109i32) || code == Some(232i32) || code == Some(233i32)
}

/// Whether an error's operating-system code says that the other end of a
/// pipe has gone.
pub fn is_pipe_closed_code(code: Option<i32>) -> (r: bool)
    ensures
        r == pipe_closed_code(code),
{
    match code {
        Some(c) => c == 109 || c == 232 || c == 233,
        None => false,
    }
}

/// Declares `std::io::Error`, so that a reference to one can pass through
/// verified code; what it holds stays hidden.
#[verifier::external_type_specification]
#[verifier::external_body]
pub struct ExIoError(std::io::Error);

/// The operating-system code that an error value was made from, if any, as
/// `std::io::Error::raw_os_error` reads it from the value.
pub uninterp spec fn os_error_code(e: std::io::Error) -> Option<i32>;

/// Calls `std::io::Error::raw_os_error`, which returns the operating-system
/// code stored in the error value (`Some` for an error made from such a code,
/// `None` otherwise). The contract names that code `os_error_code` of the
/// value; what the code is for a given value is not stated.
#[verifier::external_body]
fn raw_os_error(error: &std::io::Error) -> (r: Option<i32>)
    ensures
        r == os_error_code(*error),
{
    error.raw_os_error()
}

/// Whether `error` says that the other end of a pipe has gone: whether its
/// operating-system code is one of the codes `pipe_closed_code` names.
pub fn is_pipe_closed(error: &std::io::Error) -> (r: bool)
    ensures
        r == pipe_closed_code(os_error_code(*error)),
{
    let code = raw_os_error(error);
    is_pipe_closed_code(code)
}

/// The system error code of an overlapped operation that is still running.
pub const ERROR_IO_PENDING: i32 = 997;

/// The system error code of a pipe that a client connected to before the
/// server asked.
pub const ERROR_PIPE_CONNECTED: i32 = 535;

/// What to do after starting an overlapped pipe operation.
#[derive(Clone, Copy, Debug, PartialEq, Eq, Structural)]
pub enum OverlappedStep {
    /// Nothing is left to do: the operation is over.
    Done,
    /// The operation has finished: collect its result.
    Collect,
    /// The operation is running: wait for its event, then collect its result.
    WaitThenCollect,
    /// The operation failed: report the last error.
    Fail,
}

/// The step after a connect of a pipe server, overlapped or not: a started
/// connect, or a client that was already there, is done; a pending one is
/// waited for; any other error fails. `code` is the last error's code when
/// the call did not start the connect.
pub fn pipe_connect_step(started: bool, code: Option<i32>) -> (r: OverlappedStep)
    ensures
        r == (if started || code == Some(ERROR_PIPE_CONNECTED) {
            OverlappedStep::Done
        } else if code == Some(ERROR_IO_PENDING) {
            OverlappedStep::WaitThenCollect
        } else {
            OverlappedStep::Fail
        }),
{
    if started {
        return OverlappedStep::Done;
    }
    match code {
        Some(c) => {
            if c == ERROR_PIPE_CONNECTED {
                OverlappedStep::Done
            } else if c == ERROR_IO_PENDING {
                OverlappedStep::WaitThenCollect
            } else {
                OverlappedStep::Fail
            }
        },
        None => OverlappedStep::Fail,
    }
}

/// The step after an overlapped read or write: a started one is collected;
/// a pending one is waited for, then collected; any other error fails.
/// `code` is the last error's code when the call did not start the transfer.
pub fn transfer_overlapped_step(started: bool, code: Option<i32>) -> (r: OverlappedStep)
    ensures
        r == (if started {
            OverlappedStep::Collect
        } else if code == Some(ERROR_IO_PENDING) {
            OverlappedStep::WaitThenCollect
        } else {
            OverlappedStep::Fail
        }),
{
    if started {
        return OverlappedStep::Collect;
    }
    match code {
        Some(c) => {
            if c == ERROR_IO_PENDING {
                OverlappedStep::WaitThenCollect
            } else {
                OverlappedStep::Fail
            }
        },
        None => OverlappedStep::Fail,
    }
}

/// What to do next when an action is tried up to a fixed number of times.
#[derive(Clone, Copy, Debug, PartialEq, Eq, Structural)]
pub enum RetryStep {
    /// Try the action (again).
    Attempt,
    /// Stop and report the last failure (or, when nothing was tried, the
    /// last operating-system error).
    GiveUp,
}

/// The decision of a retry loop that allows `attempts` tries and has made
/// `made` failed ones: try again while tries are left. A success ends the
/// loop before this is asked; after each failure the caller waits its delay
/// before asking.
pub fn retry_step(made: usize, attempts: usize) -> (r: RetryStep)
    ensures
        r == (if made < attempts {
            RetryStep::Attempt
        } else {
            RetryStep::GiveUp
        }),
{
    if made < attempts {
        RetryStep::Attempt
    } else {
        RetryStep::GiveUp
    }
}

} // verus!
