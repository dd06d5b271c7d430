//! The ping-pong message contract shared by every method: the first request's
//! bytes, what the child does to a request, how the parent derives its next
//! request, the readiness lines a child prints, and the status texts of the
//! transports that report numeric results.

use vstd::prelude::*;

use crate::number_text::{
    chars_of, decimal_text, format_decimal, format_signed_decimal, lemma_decimal_round_trip,
    parse_failure_text, parse_unsigned, parse_unsigned_spec, signed_decimal_text, ParseIntFailure,
};

verus! {

/// How a named-pipe method opens and uses its pipe.
#[derive(Clone, Copy, Debug, PartialEq, Eq, Structural)]
pub enum NamedPipeKind {
    ByteSync,
    MessageSync,
    Overlapped,
}

/// The byte at position `i` of the first request.
pub open spec fn pattern_byte(i: int) -> u8 {
    (i % 251) as u8
}

/// A message with its first byte advanced by one (wrapping), the empty
/// message unchanged.
pub open spec fn bump_first(s: Seq<u8>) -> Seq<u8> {
    if s.len() == 0 {
        s
    } else {
        s.update(0, ((s[0] + 1) % 256) as u8)
    }
}

/// The first request: byte `i` is `i % 251`.
pub fn fill_pattern(size: usize) -> (r: Vec<u8>)
    ensures
        r@.len() == size,
        forall|i: int| 0 <= i < size ==> r@[i] == pattern_byte(i),
{
    let mut r: Vec<u8> = Vec::new();
    let mut i: usize = 0;
    while i < size
        invariant
            i <= size,
            r@.len() == i,
            forall|k: int| 0 <= k < i ==> r@[k] == pattern_byte(k),
        decreases size - i,
    {
        r.push((i % 251) as u8);
        i = i + 1;
    }
    r
}

/// What the child does to a request before sending it back: advances its
/// first byte by one, wrapping.
pub fn bump_first_byte(buf: &mut Vec<u8>)
    ensures
        final(buf)@ == bump_first(old(buf)@),
{
    if buf.len() > 0 {
        let b = buf[0].wrapping_add(1);
        buf.set(0, b);
        assert(final(buf)@ =~= bump_first(old(buf)@));
    }
}

/// How the parent derives its next request from a response: a copy of the
/// response with the first byte advanced by one; an empty request stays
/// empty.
pub fn next_request(outbound: &mut Vec<u8>, inbound: &Vec<u8>)
    requires
        old(outbound)@.len() == inbound@.len(),
    ensures
        final(outbound)@ == bump_first(inbound@),
{
    let n = inbound.len();
    let mut i: usize = 0;
    while i < n
        invariant
            n == inbound@.len(),
            outbound@.len() == n,
            i <= n,
            forall|k: int| 0 <= k < i ==> outbound@[k] == inbound@[k],
        decreases n - i,
    {
        outbound.set(i, inbound[i]);
        i = i + 1;
    }
    assert(outbound@ =~= inbound@);
    bump_first_byte(outbound);
}

/// Law: one round trip advances the request's first byte by two, wrapping,
/// and leaves the other bytes as they were.
pub proof fn lemma_round_trip_advances_by_two(request: Seq<u8>)
    requires
        request.len() > 0,
    ensures
        bump_first(bump_first(request)) == request.update(0, ((request[0] + 2) % 256) as u8),
{
    assert(bump_first(bump_first(request)) =~= request.update(0, ((request[0] + 2) % 256) as u8));
}

/// The request after `k` round trips: each one bumps the first byte on the
/// child's side and again on the parent's.
pub open spec fn after_round_trips(request: Seq<u8>, k: nat) -> Seq<u8>
    decreases k,
{
    if k == 0 {
        request
    } else {
        bump_first(bump_first(after_round_trips(request, (k - 1) as nat)))
    }
}

/// Law: after `k` round trips the request's first byte has advanced by
/// `2k`, wrapping, and every other byte is as it was; from the first
/// request (`fill_pattern`), whose first byte is 0, it reads `2k mod 256`.
pub proof fn lemma_round_trips_advance_first_byte(request: Seq<u8>, k: nat)
    requires
        request.len() > 0,
    ensures
        after_round_trips(request, k) == request.update(0, ((request[0] + 2 * k) % 256) as u8),
        request[0] == pattern_byte(0) ==> after_round_trips(request, k)[0] == (2 * k) % 256,
    decreases k,
{
    if k == 0 {
        assert(request.update(0, ((request[0] + 0) % 256) as u8) =~= request);
    } else {
        let prev = after_round_trips(request, (k - 1) as nat);
        lemma_round_trips_advance_first_byte(request, (k - 1) as nat);
        lemma_round_trip_advances_by_two(prev);
        let a = request[0] + 2 * (k - 1);
        vstd::arithmetic::div_mod::lemma_add_mod_noop(a, 2, 256);
        vstd::arithmetic::div_mod::lemma_mod_bound(a, 256);
        vstd::arithmetic::div_mod::lemma_small_mod(2, 256);
        assert(((a % 256) + 2) % 256 == (request[0] + 2 * k) % 256);
        assert(prev.update(0, ((prev[0] + 2) % 256) as u8) =~= request.update(
            0,
            ((request[0] + 2 * k) % 256) as u8,
        ));
    }
}

/// The line a child prints when it is ready.
pub const READY_LINE: &'static str = "ready";

/// What a ready line that carries a port starts with.
pub const READY_PORT_PREFIX: &'static str = "ready:";

pub open spec fn unexpected_readiness_text(line: Seq<char>) -> Seq<char> {
    "unexpected child readiness message `"@ + line + "`"@
}

/// Fails with the text that names an unexpected readiness line.
pub fn unexpected_readiness(line: &str) -> (r: String)
    ensures
        r@ == unexpected_readiness_text(line@),
{
    let mut m = String::from_str("unexpected child readiness message `");
    m.append(line);
    m.append("`");
    m
}

/// Accepts exactly the plain ready line.
pub fn check_ready(line: &str) -> (r: Result<(), String>)
    ensures
        r is Ok <==> line@ == READY_LINE@,
        r matches Err(m) ==> m@ == unexpected_readiness_text(line@),
{
    let expected = String::from_str(READY_LINE);
    let got = String::from_str(line);
    if got.eq(&expected) {
        Ok(())
    } else {
        Err(unexpected_readiness(line))
    }
}

/// The port a ready line announces, or the text of the problem with it.
pub open spec fn ready_port_spec(line: Seq<char>) -> Result<int, Seq<char>> {
    if line.len() >= READY_PORT_PREFIX@.len() && line.subrange(0, READY_PORT_PREFIX@.len() as int)
        == READY_PORT_PREFIX@ {
        match parse_unsigned_spec(
            line.subrange(READY_PORT_PREFIX@.len() as int, line.len() as int),
            u16::MAX as int,
        ) {
            Ok(p) => Ok(p),
            Err(k) => Err(parse_failure_text(k)),
        }
    } else {
        Err(unexpected_readiness_text(line))
    }
}

/// The text of a `ParseIntError` of the given kind.
pub fn parse_failure_message(k: ParseIntFailure) -> (r: String)
    ensures
        r@ == parse_failure_text(k),
{
    match k {
        ParseIntFailure::Empty => String::from_str("cannot parse integer from empty string"),
        ParseIntFailure::InvalidDigit => String::from_str("invalid digit found in string"),
        ParseIntFailure::PosOverflow => String::from_str("number too large to fit in target type"),
    }
}

/// Reads the port from a `ready:<port>` line.
pub fn parse_ready_port(readiness: &str) -> (r: Result<u16, String>)
    ensures
        match r {
            Ok(p) => ready_port_spec(readiness@) == Ok::<int, Seq<char>>(p as int),
            Err(m) => ready_port_spec(readiness@) == Err::<int, Seq<char>>(m@),
        },
{
    proof {
        reveal_strlit("ready:");
    }
    let chars = chars_of(readiness);
    let n = chars.len();
    let has_prefix = n >= 6 && chars[0] == 'r' && chars[1] == 'e' && chars[2] == 'a' && chars[3]
        == 'd' && chars[4] == 'y' && chars[5] == ':';
    if !has_prefix {
        assert(!(readiness@.len() >= READY_PORT_PREFIX@.len() && readiness@.subrange(0, 6)
            == READY_PORT_PREFIX@)) by {
            if readiness@.len() >= 6 && readiness@.subrange(0, 6) == READY_PORT_PREFIX@ {
                assert(readiness@.subrange(0, 6)[0] == 'r');
                assert(readiness@.subrange(0, 6)[5] == ':');
                assert(readiness@.subrange(0, 6)[1] == 'e');
                assert(readiness@.subrange(0, 6)[2] == 'a');
                assert(readiness@.subrange(0, 6)[3] == 'd');
                assert(readiness@.subrange(0, 6)[4] == 'y');
            }
        }
        return Err(unexpected_readiness(readiness));
    }
    assert(readiness@.subrange(0, 6) =~= READY_PORT_PREFIX@);
    let port_text = readiness.substring_char(6, n);
    match parse_unsigned(port_text, 65535) {
        Ok(p) => Ok(p as u16),
        Err(k) => Err(parse_failure_message(k)),
    }
}

/// The line a child prints when it is ready and listens on `port`.
pub fn ready_line_with_port(port: u16) -> (r: String)
    ensures
        r@ == READY_PORT_PREFIX@ + decimal_text(port as nat),
{
    let mut line = String::from_str(READY_PORT_PREFIX);
    let digits = format_decimal(port as u128);
    line.append(digits.as_str());
    line
}

/// Law: the port a child announces is the port the parent reads back.
pub proof fn lemma_ready_port_round_trip(port: u16)
    ensures
        ready_port_spec(READY_PORT_PREFIX@ + decimal_text(port as nat)) == Ok::<int, Seq<char>>(
            port as int,
        ),
{
    reveal_strlit("ready:");
    let line = READY_PORT_PREFIX@ + decimal_text(port as nat);
    assert(line.subrange(0, 6) =~= READY_PORT_PREFIX@);
    assert(line.subrange(6, line.len() as int) =~= decimal_text(port as nat));
    lemma_decimal_round_trip(port as nat, u16::MAX as int);
}

/// The largest payload of one UDP datagram over IPv4.
pub const MAX_UDP_PAYLOAD: usize = 65507;

pub open spec fn udp_size_error_text(message_size: nat) -> Seq<char> {
    "udp-loopback supports message sizes up to "@ + decimal_text(MAX_UDP_PAYLOAD as nat)
        + " bytes, got "@ + decimal_text(message_size)
}

/// Accepts a message size that fits one UDP datagram.
pub fn validate_udp_message_size(message_size: usize) -> (r: Result<(), String>)
    ensures
        r is Ok <==> message_size <= MAX_UDP_PAYLOAD,
        r matches Err(m) ==> m@ == udp_size_error_text(message_size as nat),
{
    if message_size > MAX_UDP_PAYLOAD {
        let mut m = String::from_str("udp-loopback supports message sizes up to ");
        let a = format_decimal(MAX_UDP_PAYLOAD as u128);
        m.append(a.as_str());
        m.append(" bytes, got ");
        let b = format_decimal(message_size as u128);
        m.append(b.as_str());
        return Err(m);
    }
    Ok(())
}

/// What the UDP child does with a datagram it received.
#[derive(Clone, Copy, Debug, PartialEq, Eq, Structural)]
pub enum UdpDatagram {
    /// Drop it and wait for the next one.
    Ignore,
    /// The parent's one-byte stop datagram: end the child.
    Stop,
    /// A whole request: answer it.
    Echo,
}

/// Sorts a received datagram by its length: an empty one is ignored, a
/// one-byte one stops the child, one of the message size is a request, any
/// other is ignored.
pub fn classify_udp_datagram(read: usize, message_size: usize) -> (r: UdpDatagram)
    ensures
        r == (if read == 0 {
            UdpDatagram::Ignore
        } else if read == 1 {
            UdpDatagram::Stop
        } else if read != message_size {
            UdpDatagram::Ignore
        } else {
            UdpDatagram::Echo
        }),
{
    if read == 0 {
        UdpDatagram::Ignore
    } else if read == 1 {
        UdpDatagram::Stop
    } else if read != message_size {
        UdpDatagram::Ignore
    } else {
        UdpDatagram::Echo
    }
}

pub open spec fn rpc_error_text(label: Seq<char>, status: i32) -> Seq<char> {
    label + " failed with RPC status "@ + signed_decimal_text(status as int)
}

/// Accepts an RPC status of zero; any other fails with its value.
pub fn rpc_status(status: i32, label: &str) -> (r: Result<(), String>)
    ensures
        r is Ok <==> status == 0,
        r matches Err(m) ==> m@ == rpc_error_text(label@, status),
{
    if status == 0 {
        Ok(())
    } else {
        let mut m = String::from_str(label);
        m.append(" failed with RPC status ");
        let s = format_signed_decimal(status as i64);
        m.append(s.as_str());
        Err(m)
    }
}

/// The kinds of stream error that a child's echo loop tells apart.
#[derive(Clone, Copy, Debug, PartialEq, Eq, Structural)]
pub enum StreamErrorKind {
    UnexpectedEof,
    ConnectionAborted,
    ConnectionReset,
    BrokenPipe,
    Interrupted,
    Other,
}

} // verus!
