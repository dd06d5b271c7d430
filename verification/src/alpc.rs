//! Rules of the ALPC transport: the largest payload a port accepts, the word
//! buffer that holds a port message and the bytes written into it before a
//! send, the type field of a received message and what each side does with
//! it, the length fields of a counted UTF-16 port name, and the text of a
//! failed NTSTATUS.
//!
//! `header_size` is always the size of the port-message header that precedes
//! the payload in a buffer.

use vstd::prelude::*;

use crate::number_text::{decimal_text, format_decimal, format_hex_padded, hex_text_padded};
use crate::word_bytes::{byte_of, bytes_of_words, words_from_bytes};
use vstd::arithmetic::power::pow;

verus! {

/// The largest value of the signed 16-bit length fields of a port message.
pub const ALPC_MAX_MESSAGE_LENGTH: usize = 32767;

/// The type bit that marks a message as waiting for a reply.
pub const LPC_CONTINUATION_REQUIRED: u32 = 0x2000;

/// The largest payload a port message can carry after its header.
pub open spec fn max_alpc_payload(header_size: int) -> int {
    if header_size <= ALPC_MAX_MESSAGE_LENGTH as int {
        ALPC_MAX_MESSAGE_LENGTH as int - header_size
    } else {
        0
    }
}

pub open spec fn alpc_size_error_text(max_payload: nat, message_size: nat) -> Seq<char> {
    "alpc supports message sizes up to "@ + decimal_text(max_payload) + " bytes on this build, got "@
        + decimal_text(message_size)
}

/// Accepts a message size that fits one port message, and otherwise says
/// what the limit is.
pub fn validate_alpc_message_size(message_size: usize, header_size: usize) -> (r: Result<(), String>)
    ensures
        r is Ok <==> message_size <= max_alpc_payload(header_size as int),
        r matches Err(m) ==> m@ == alpc_size_error_text(
            max_alpc_payload(header_size as int) as nat,
            message_size as nat,
        ),
{
    let max_payload = ALPC_MAX_MESSAGE_LENGTH.saturating_sub(header_size);
    if message_size > max_payload {
        let mut m = String::from_str("alpc supports message sizes up to ");
        let a = format_decimal(max_payload as u128);
        m.append(a.as_str());
        m.append(" bytes on this build, got ");
        let b = format_decimal(message_size as u128);
        m.append(b.as_str());
        return Err(m);
    }
    Ok(())
}

/// A word-aligned buffer that holds one port message: the header, then the
/// payload.
pub struct MessageBuffer {
    pub storage: Vec<usize>,
}

pub open spec fn word_size() -> int {
    vstd::layout::size_of::<usize>() as int
}

/// The number of words that hold a header and `payload_capacity` bytes: the
/// bytes rounded up to whole words, and at least one word.
pub open spec fn message_words(payload_capacity: int, header_size: int) -> int {
    let bytes = header_size + payload_capacity;
    let words = bytes / word_size() + if bytes % word_size() == 0 {
        0int
    } else {
        1int
    };
    if words < 1 {
        1
    } else {
        words
    }
}

proof fn lemma_word_size()
    ensures
        word_size() == 4 || word_size() == 8,
{
    broadcast use vstd::layout::layout_of_primitives;

    assert(usize::BITS == 32 || usize::BITS == 64);
}

/// Law: a message buffer sized for a header and `payload_capacity` bytes
/// holds a whole number of words, at least one; it holds the header and the
/// payload, and wastes less than one word beyond them (when they are not
/// both empty).
pub proof fn lemma_message_capacity(payload_capacity: int, header_size: int)
    requires
        payload_capacity >= 0,
        header_size >= 0,
    ensures
        ({
            let cap = message_words(payload_capacity, header_size) * word_size();
            let bytes = header_size + payload_capacity;
            &&& cap % word_size() == 0
            &&& cap >= word_size()
            &&& bytes <= cap
            &&& cap <= bytes + word_size()
            &&& bytes > 0 ==> cap < bytes + word_size()
            &&& cap - header_size >= payload_capacity
        }),
{
    lemma_word_size();
    let w = word_size();
    let bytes = header_size + payload_capacity;
    let words = message_words(payload_capacity, header_size);
    let q = bytes / w;
    let r = bytes % w;
    vstd::arithmetic::div_mod::lemma_fundamental_div_mod(bytes, w);
    vstd::arithmetic::div_mod::lemma_mod_bound(bytes, w);
    assert(bytes == w * q + r);
    assert(q >= 0) by {
        vstd::arithmetic::div_mod::lemma_div_pos_is_pos(bytes, w);
    }
    vstd::arithmetic::div_mod::lemma_mod_multiples_basic(words, w);
    assert((words * w) % w == 0) by {
        vstd::arithmetic::mul::lemma_mul_is_commutative(words, w);
    }
    if r == 0 {
        if q < 1 {
            assert(q == 0);
            assert(bytes == 0);
            assert(words == 1);
        } else {
            assert(words == q);
            assert(words * w == bytes) by (nonlinear_arith)
                requires
                    words == q,
                    bytes == w * q,
            ;
        }
    } else {
        assert(words == q + 1);
        assert(words * w == bytes - r + w) by (nonlinear_arith)
            requires
                words == q + 1,
                bytes == w * q + r,
        ;
        assert(words >= 1);
        assert(words * w >= w) by (nonlinear_arith)
            requires
                words >= 1,
                w > 0,
        ;
    }
}

impl MessageBuffer {
    /// The buffer's size in bytes fits in a `usize`.
    pub open spec fn wf(&self) -> bool {
        self.storage@.len() * word_size() <= usize::MAX
    }

    pub open spec fn capacity_spec(&self) -> int {
        self.storage@.len() * word_size()
    }

    /// A zeroed buffer for a header and `payload_capacity` bytes.
    pub fn new(payload_capacity: usize, header_size: usize) -> (r: MessageBuffer)
        requires
            header_size + payload_capacity + 8 <= usize::MAX,
        ensures
            r.wf(),
            r.storage@.len() == message_words(payload_capacity as int, header_size as int),
            forall|i: int| 0 <= i < r.storage@.len() ==> r.storage@[i] == 0,
    {
        proof {
            lemma_word_size();
        }
        let w = core::mem::size_of::<usize>();
        let bytes = header_size + payload_capacity;
        let mut words = bytes / w + if bytes % w == 0 {
            0
        } else {
            1
        };
        if words < 1 {
            words = 1;
        }
        proof {
            assert(words * w <= bytes + w) by (nonlinear_arith)
                requires
                    w > 0,
                    words == 1 || words == bytes / w + if bytes % w == 0 {
                        0int
                    } else {
                        1int
                    },
                    bytes >= 0,
            {
                if words != 1 {
                    assert((bytes / w) * w <= bytes);
                }
            }
        }
        let mut storage: Vec<usize> = Vec::new();
        while storage.len() < words
            invariant
                storage@.len() <= words,
                forall|i: int| 0 <= i < storage@.len() ==> storage@[i] == 0,
            decreases words - storage@.len(),
        {
            storage.push(0);
        }
        MessageBuffer { storage }
    }

    /// The buffer's size in bytes.
    pub fn capacity_bytes(&self) -> (r: usize)
        requires
            self.wf(),
        ensures
            r == self.capacity_spec(),
    {
        self.storage.len() * core::mem::size_of::<usize>()
    }

    /// The largest payload the buffer holds after a header.
    pub fn payload_capacity(&self, header_size: usize) -> (r: usize)
        requires
            self.wf(),
        ensures
            r == (if self.capacity_spec() >= header_size {
                self.capacity_spec() - header_size
            } else {
                0
            }),
    {
        self.capacity_bytes().saturating_sub(header_size)
    }

    /// Readies the buffer for sending `payload`: replaces it with a fresh
    /// buffer sized for the payload when the payload does not fit, then
    /// writes the message (`message_image`): the data length and total length
    /// fields, a zero type field, the reply key when there is one, the
    /// payload right after the header, and zeros everywhere else. Fails, with
    /// the buffer zeroed, when a length does not fit in 16 signed bits.
    pub fn prepare_send(
        &mut self,
        payload: &[u8],
        layout: &PortMessageLayout,
        reply_key: Option<ReplyKey>,
    ) -> (r: Result<(), String>)
        requires
            old(self).wf(),
            layout.wf(),
            layout.header_size + payload@.len() + 8 <= usize::MAX,
        ensures
            final(self).wf(),
            final(self).capacity_spec() >= layout.header_size + payload@.len(),
            layout.header_size + payload@.len() <= old(self).capacity_spec()
                ==> final(self).storage@.len() == old(self).storage@.len(),
            layout.header_size + payload@.len() > old(self).capacity_spec()
                ==> final(self).storage@.len() == message_words(
                payload@.len() as int,
                layout.header_size as int,
            ),
            r is Ok <==> layout.header_size + payload@.len() <= ALPC_MAX_MESSAGE_LENGTH,
            r is Ok ==> bytes_of_words(final(self).storage@) == message_image(
                *layout,
                payload@,
                reply_key,
                final(self).capacity_spec() as nat,
            ),
            r matches Err(m) ==> (forall|i: int|
                0 <= i < final(self).storage@.len() ==> final(self).storage@[i] == 0) && (if payload@.len()
                > ALPC_MAX_MESSAGE_LENGTH {
                m@ == "ALPC payload exceeds i16 size"@
            } else {
                m@ == "ALPC message exceeds i16 size"@
            }),
    {
        let header_size = layout.header_size;
        let payload_len = payload.len();
        if header_size + payload_len > self.capacity_bytes() {
            *self = MessageBuffer::new(payload_len, header_size);
            proof {
                lemma_word_size();
                let bytes = header_size + payload_len;
                let w = word_size();
                let words = self.storage@.len() as int;
                assert(words * w >= bytes) by (nonlinear_arith)
                    requires
                        w > 0,
                        bytes >= 0,
                        words >= bytes / w + if bytes % w == 0 {
                            0int
                        } else {
                            1int
                        },
                {
                    assert(bytes == (bytes / w) * w + bytes % w);
                    if bytes % w == 0 {
                        assert(words * w >= (bytes / w) * w);
                    } else {
                        assert(words * w >= (bytes / w + 1) * w);
                    }
                }
            }
        }
        if payload_len > ALPC_MAX_MESSAGE_LENGTH || header_size + payload_len > ALPC_MAX_MESSAGE_LENGTH {
            let n = self.storage.len();
            let mut i: usize = 0;
            while i < n
                invariant
                    n == self.storage@.len(),
                    i <= n,
                    forall|k: int| 0 <= k < i ==> self.storage@[k] == 0,
                decreases n - i,
            {
                self.storage.set(i, 0);
                i = i + 1;
            }
            if payload_len > ALPC_MAX_MESSAGE_LENGTH {
                return Err(String::from_str("ALPC payload exceeds i16 size"));
            }
            return Err(String::from_str("ALPC message exceeds i16 size"));
        }
        let cap = self.capacity_bytes();
        let ghost image = message_image(*layout, payload@, reply_key, cap as nat);
        let mut bytes: Vec<u8> = Vec::new();
        let mut b: usize = 0;
        while b < cap
            invariant
                layout.wf(),
                header_size == layout.header_size,
                payload_len == payload@.len(),
                header_size + payload_len <= ALPC_MAX_MESSAGE_LENGTH,
                header_size + payload_len <= cap,
                image == message_image(*layout, payload@, reply_key, cap as nat),
                b <= cap,
                bytes@ == image.take(b as int),
            decreases cap - b,
        {
            let v = image_byte(layout, payload, reply_key, b);
            bytes.push(v);
            b = b + 1;
            proof {
                assert(bytes@ =~= image.take(b as int));
            }
        }
        proof {
            lemma_word_size();
            assert(bytes@ =~= image);
            vstd::arithmetic::div_mod::lemma_mod_multiples_basic(self.storage@.len() as int, word_size());
            assert((self.storage@.len() * word_size()) % word_size() == 0) by {
                vstd::arithmetic::mul::lemma_mul_is_commutative(self.storage@.len() as int, word_size());
            }
        }
        let ghost old_len = self.storage@.len();
        self.storage = words_from_bytes(&bytes);
        proof {
            let w = word_size();
            let a = self.storage@.len() as int;
            assert(a == old_len) by (nonlinear_arith)
                requires
                    a * w == old_len * w,
                    w > 0,
            ;
        }
        Ok(())
    }
}

/// Where a port-message header keeps the fields that a sender fills in:
/// the data length at byte 0 and the total length at byte 2 (16 bits each),
/// the type at byte 4, then the 32-bit message identifier at
/// `message_id_at` and the 32-bit callback identifier at `callback_id_at`,
/// all within `header_size` bytes.
#[derive(Clone, Copy, Debug, PartialEq, Eq, Structural)]
pub struct PortMessageLayout {
    pub header_size: usize,
    pub message_id_at: usize,
    pub callback_id_at: usize,
}

impl PortMessageLayout {
    /// The identifiers lie after the type field, apart, inside the header.
    pub open spec fn wf(&self) -> bool {
        &&& 6 <= self.message_id_at
        &&& self.message_id_at + 4 <= self.callback_id_at
        &&& self.callback_id_at + 4 <= self.header_size
    }
}

/// Byte `b` of a header carrying these lengths and reply key.
pub open spec fn header_byte(
    layout: PortMessageLayout,
    data_length: nat,
    total_length: nat,
    reply_key: Option<ReplyKey>,
    b: int,
) -> u8 {
    if b == 0 {
        byte_of(data_length, 0)
    } else if b == 1 {
        byte_of(data_length, 1)
    } else if b == 2 {
        byte_of(total_length, 0)
    } else if b == 3 {
        byte_of(total_length, 1)
    } else if reply_key is Some && layout.message_id_at <= b < layout.message_id_at + 4 {
        byte_of(reply_key->0.message_id as nat, (b - layout.message_id_at) as nat)
    } else if reply_key is Some && layout.callback_id_at <= b < layout.callback_id_at + 4 {
        byte_of(reply_key->0.callback_id as nat, (b - layout.callback_id_at) as nat)
    } else {
        0
    }
}

/// The `len` bytes of a port message that carries `payload`: the header
/// (`header_byte`), the payload right after it, and zeros after that.
pub open spec fn message_image(
    layout: PortMessageLayout,
    payload: Seq<u8>,
    reply_key: Option<ReplyKey>,
    len: nat,
) -> Seq<u8> {
    Seq::new(
        len,
        |b: int|
            if b < layout.header_size {
                header_byte(
                    layout,
                    payload.len(),
                    (layout.header_size + payload.len()) as nat,
                    reply_key,
                    b,
                )
            } else if b < layout.header_size + payload.len() {
                payload[b - layout.header_size]
            } else {
                0
            },
    )
}

proof fn lemma_small_powers()
    ensures
        pow(256, 0) == 1,
        pow(256, 1) == 256,
        pow(256, 2) == 65536,
        pow(256, 3) == 16777216,
{
    reveal_with_fuel(pow, 4);
}

proof fn lemma_le16(x: nat)
    requires
        x < 65536,
    ensures
        byte_of(x, 0) as nat + 256 * (byte_of(x, 1) as nat) == x,
{
    lemma_small_powers();
    let v = x as u32;
    assert(v % 256 + 256 * ((v / 256) % 256) == v) by (bit_vector)
        requires
            v < 65536,
    ;
    assert(x / 1 == x);
    assert(byte_of(x, 0) as nat == v % 256);
    assert(byte_of(x, 1) as nat == (v / 256) % 256);
}

proof fn lemma_le32(v: u32)
    ensures
        byte_of(v as nat, 0) as nat + 256 * (byte_of(v as nat, 1) as nat) + 65536 * (byte_of(
            v as nat,
            2,
        ) as nat) + 16777216 * (byte_of(v as nat, 3) as nat) == v,
{
    lemma_small_powers();
    assert(v % 256 + 256 * ((v / 256) % 256) + 65536 * ((v / 65536) % 256) + 16777216 * ((v
        / 16777216) % 256) == v) by (bit_vector);
    let x = v as nat;
    assert(x / 1 == x);
    assert(byte_of(x, 0) as nat == v % 256);
    assert(byte_of(x, 1) as nat == (v / 256) % 256);
    assert(byte_of(x, 2) as nat == (v / 65536) % 256);
    assert(byte_of(x, 3) as nat == (v / 16777216) % 256);
}

/// The little-endian 16-bit value at byte `at`.
pub open spec fn le16_at(bytes: Seq<u8>, at: int) -> nat {
    bytes[at] as nat + 256 * (bytes[at + 1] as nat)
}

/// The little-endian 32-bit value at byte `at`.
pub open spec fn le32_at(bytes: Seq<u8>, at: int) -> nat {
    bytes[at] as nat + 256 * (bytes[at + 1] as nat) + 65536 * (bytes[at + 2] as nat) + 16777216 * (
    bytes[at + 3] as nat)
}

/// Law: the message that `prepare_send` writes carries the payload right
/// after the header, holds its data length and total length in the two
/// length fields, reads as type 0, carries the reply key's identifiers when
/// there is a key (and zeros there when there is none), and is zero after
/// the payload.
pub proof fn lemma_message_image_fields(
    layout: PortMessageLayout,
    payload: Seq<u8>,
    reply_key: Option<ReplyKey>,
    len: nat,
)
    requires
        layout.wf(),
        layout.header_size + payload.len() <= len,
        layout.header_size + payload.len() <= ALPC_MAX_MESSAGE_LENGTH,
    ensures
        ({
            let image = message_image(layout, payload, reply_key, len);
            let h = layout.header_size as int;
            &&& image.len() == len
            &&& image.subrange(h, h + payload.len()) == payload
            &&& le16_at(image, 0) == payload.len()
            &&& le16_at(image, 2) == h + payload.len()
            &&& image[4] == 0 && image[5] == 0
            &&& reply_key matches Some(k) ==> le32_at(image, layout.message_id_at as int)
                == k.message_id && le32_at(image, layout.callback_id_at as int) == k.callback_id
            &&& reply_key is None ==> forall|b: int|
                layout.message_id_at <= b < layout.callback_id_at + 4 ==> image[b] == 0
            &&& forall|b: int| h + payload.len() <= b < len ==> image[b] == 0
        }),
{
    let image = message_image(layout, payload, reply_key, len);
    let h = layout.header_size as int;
    assert(image.subrange(h, h + payload.len()) =~= payload);
    lemma_le16(payload.len());
    lemma_le16((h + payload.len()) as nat);
    if let Some(k) = reply_key {
        lemma_le32(k.message_id);
        lemma_le32(k.callback_id);
    }
}

fn u32_byte(v: u32, k: usize) -> (r: u8)
    requires
        k < 4,
    ensures
        r == byte_of(v as nat, k as nat),
{
    proof {
        lemma_small_powers();
    }
    let d: u32 = if k == 0 {
        1
    } else if k == 1 {
        256
    } else if k == 2 {
        65536
    } else {
        16777216
    };
    ((v / d) % 256) as u8
}

/// Byte `b` of `message_image(*layout, payload@, reply_key, _)`.
fn image_byte(layout: &PortMessageLayout, payload: &[u8], reply_key: Option<ReplyKey>, b: usize) -> (r: u8)
    requires
        layout.wf(),
        layout.header_size + payload@.len() <= ALPC_MAX_MESSAGE_LENGTH,
    ensures
        r == (if b < layout.header_size {
            header_byte(
                *layout,
                payload@.len(),
                (layout.header_size + payload@.len()) as nat,
                reply_key,
                b as int,
            )
        } else if b < layout.header_size + payload@.len() {
            payload@[b - layout.header_size]
        } else {
            0
        }),
{
    let h = layout.header_size;
    let n = payload.len();
    if b >= h {
        if b < h + n {
            return payload[b - h];
        }
        return 0;
    }
    let data = n as u32;
    let total = (h + n) as u32;
    if b == 0 {
        return u32_byte(data, 0);
    } else if b == 1 {
        return u32_byte(data, 1);
    } else if b == 2 {
        return u32_byte(total, 0);
    } else if b == 3 {
        return u32_byte(total, 1);
    }
    match reply_key {
        Some(key) => {
            if layout.message_id_at <= b && b < layout.message_id_at + 4 {
                u32_byte(key.message_id, b - layout.message_id_at)
            } else if layout.callback_id_at <= b && b < layout.callback_id_at + 4 {
                u32_byte(key.callback_id, b - layout.callback_id_at)
            } else {
                0
            }
        },
        None => 0,
    }
}

/// The message type that a port message's type field holds: its low byte.
pub fn message_kind(type_field: i16) -> (r: u32)
    ensures
        r == ((type_field as u32) & 0xff),
{
    (type_field as u32) & 0xff
}

/// Whether a port message's type field marks it as waiting for a reply.
pub fn reply_required(type_field: i16) -> (r: bool)
    ensures
        r == ((type_field as u32) & LPC_CONTINUATION_REQUIRED != 0),
{
    (type_field as u32) & LPC_CONTINUATION_REQUIRED != 0
}

/// Message types that the low byte of a port message's type field holds, as
/// the Native API numbers them.
pub const LPC_DATAGRAM: u32 = 3;

pub const LPC_PORT_CLOSED: u32 = 5;

pub const LPC_CONNECTION_REQUEST: u32 = 10;

pub const LPC_CONNECTION_REPLY: u32 = 11;

pub const LPC_CANCELED: u32 = 12;

/// What the echoing side does with a message it has received.
#[derive(Debug, PartialEq, Eq)]
pub enum AlpcChildStep {
    /// Send the payload back with its first byte bumped.
    Echo,
    /// Leave the loop and disconnect: the parent has said goodbye.
    Stop,
    /// Fail with this message.
    Fail { message: String },
}

pub open spec fn unexpected_kind_text(kind: nat) -> Seq<char> {
    "unexpected ALPC message type "@ + decimal_text(kind)
}

/// The echoing side's decision on a received message of type `kind` that
/// carries `payload_len` bytes, when every request carries `message_size`
/// bytes: a full-size datagram is echoed; a datagram of another size (the
/// parent's goodbye), or a closed or cancelled port, ends the loop; any other
/// type is an error.
pub fn alpc_child_step(kind: u32, payload_len: usize, message_size: usize) -> (r: AlpcChildStep)
    ensures
        kind == LPC_DATAGRAM && payload_len == message_size ==> r is Echo,
        kind == LPC_DATAGRAM && payload_len != message_size ==> r is Stop,
        kind == LPC_PORT_CLOSED || kind == LPC_CANCELED ==> r is Stop,
        kind != LPC_DATAGRAM && kind != LPC_PORT_CLOSED && kind != LPC_CANCELED ==> (r matches AlpcChildStep::Fail { message } && message@ == unexpected_kind_text(kind as nat)),
{
    if kind == LPC_DATAGRAM {
        if payload_len == message_size {
            AlpcChildStep::Echo
        } else {
            AlpcChildStep::Stop
        }
    } else if kind == LPC_PORT_CLOSED || kind == LPC_CANCELED {
        AlpcChildStep::Stop
    } else {
        let mut m = String::from_str("unexpected ALPC message type ");
        let k = format_decimal(kind as u128);
        m.append(k.as_str());
        AlpcChildStep::Fail { message: m }
    }
}

pub open spec fn expected_kind_text(what: Seq<char>, kind: nat) -> Seq<char> {
    "expected ALPC "@ + what + ", got "@ + decimal_text(kind)
}

pub open spec fn reply_length_text(expected: nat, got: nat) -> Seq<char> {
    "expected reply length "@ + decimal_text(expected) + ", got "@ + decimal_text(got)
}

fn expected_kind_error(what: &str, kind: u32) -> (r: String)
    ensures
        r@ == expected_kind_text(what@, kind as nat),
{
    let mut m = String::from_str("expected ALPC ");
    m.append(what);
    m.append(", got ");
    let k = format_decimal(kind as u128);
    m.append(k.as_str());
    m
}

/// Checks the parent's received reply: it must be a datagram of type
/// `kind` carrying exactly the `expected` bytes that were sent.
pub fn alpc_reply_check(kind: u32, got: usize, expected: usize) -> (r: Result<(), String>)
    ensures
        r is Ok <==> kind == LPC_DATAGRAM && got == expected,
        kind != LPC_DATAGRAM ==> (r matches Err(m) && m@ == expected_kind_text(
            "datagram"@,
            kind as nat,
        )),
        kind == LPC_DATAGRAM && got != expected ==> (r matches Err(m) && m@ == reply_length_text(
            expected as nat,
            got as nat,
        )),
{
    if kind != LPC_DATAGRAM {
        return Err(expected_kind_error("datagram", kind));
    }
    if got != expected {
        let mut m = String::from_str("expected reply length ");
        let e = format_decimal(expected as u128);
        m.append(e.as_str());
        m.append(", got ");
        let g = format_decimal(got as u128);
        m.append(g.as_str());
        return Err(m);
    }
    Ok(())
}

/// Checks that the first message on the listening port is a connection
/// request.
pub fn check_connection_request(kind: u32) -> (r: Result<(), String>)
    ensures
        r is Ok <==> kind == LPC_CONNECTION_REQUEST,
        r matches Err(m) ==> m@ == expected_kind_text("connection request"@, kind as nat),
{
    if kind == LPC_CONNECTION_REQUEST {
        Ok(())
    } else {
        Err(expected_kind_error("connection request", kind))
    }
}

/// Checks that the first message on the connecting port is the connection
/// reply.
pub fn check_connection_reply(kind: u32) -> (r: Result<(), String>)
    ensures
        r is Ok <==> kind == LPC_CONNECTION_REPLY,
        r matches Err(m) ==> m@ == expected_kind_text("connection reply"@, kind as nat),
{
    if kind == LPC_CONNECTION_REPLY {
        Ok(())
    } else {
        Err(expected_kind_error("connection reply", kind))
    }
}

/// The identifiers that a reply must carry to answer a message.
#[derive(Clone, Copy, Debug, PartialEq, Eq, Structural)]
pub struct ReplyKey {
    pub message_id: u32,
    pub callback_id: u32,
}

/// The reply key of a received message with this type field and these
/// identifiers: present exactly when the message waits for a reply.
pub fn reply_key(type_field: i16, message_id: u32, callback_id: u32) -> (r: Option<ReplyKey>)
    ensures
        r is Some <==> ((type_field as u32) & LPC_CONTINUATION_REQUIRED != 0),
        r matches Some(k) ==> k.message_id == message_id && k.callback_id == callback_id,
{
    if reply_required(type_field) {
        Some(ReplyKey { message_id, callback_id })
    } else {
        None
    }
}

/// The reply key of a connection request, which must wait for a reply.
pub fn connection_reply_key(type_field: i16, message_id: u32, callback_id: u32) -> (r: Result<ReplyKey, String>)
    ensures
        r is Ok <==> ((type_field as u32) & LPC_CONTINUATION_REQUIRED != 0),
        r matches Ok(k) ==> k.message_id == message_id && k.callback_id == callback_id,
        r matches Err(m) ==> m@ == "connection request missing reply context"@,
{
    match reply_key(type_field, message_id, callback_id) {
        Some(k) => Ok(k),
        None => Err(String::from_str("connection request missing reply context")),
    }
}

pub open spec fn ntstatus_error_text(label: Seq<char>, status: i32) -> Seq<char> {
    label + " failed with NTSTATUS 0x"@ + hex_text_padded(status as u32 as nat, 8)
}

/// Accepts a non-negative NTSTATUS; a negative one fails with its code in
/// eight upper-case hexadecimal digits.
pub fn ntstatus_result(status: i32, label: &str) -> (r: Result<(), String>)
    ensures
        r is Ok <==> status >= 0,
        r matches Err(m) ==> m@ == ntstatus_error_text(label@, status),
{
    if status >= 0 {
        Ok(())
    } else {
        let mut m = String::from_str(label);
        m.append(" failed with NTSTATUS 0x");
        let h = format_hex_padded(status as u32 as u64, 8);
        m.append(h.as_str());
        Err(m)
    }
}

/// The length and maximum length fields, in bytes, of a counted UTF-16
/// string whose buffer holds `units_with_nul` units, the last one the
/// terminating zero; fails when either does not fit in 16 bits.
pub fn unicode_string_lengths(units_with_nul: usize) -> (r: Result<(u16, u16), String>)
    requires
        units_with_nul >= 1,
    ensures
        match r {
            Ok((len, max)) => len == (units_with_nul - 1) * 2 && max == units_with_nul * 2,
            Err(m) => units_with_nul * 2 > u16::MAX && m@ == "unicode string too long"@,
        },
{
    let length_bytes = (units_with_nul - 1).checked_mul(2);
    let max_length_bytes = units_with_nul.checked_mul(2);
    match (length_bytes, max_length_bytes) {
        (Some(l), Some(m)) => {
            if l > 65535 || m > 65535 {
                Err(String::from_str("unicode string too long"))
            } else {
                Ok((l as u16, m as u16))
            }
        },
        _ => Err(String::from_str("unicode string too long")),
    }
}

} // verus!
