//! The shared-memory transports: where the mailbox and the ring put their
//! messages inside a mapping, how the ring's write and read indices decide a
//! push or a pop, and how a waiting side spins or blocks.

use vstd::prelude::*;

use vstd::arithmetic::div_mod::{
    lemma_fundamental_div_mod, lemma_mod_add_multiples_vanish, lemma_mod_bound,
    lemma_mod_equivalence, lemma_mod_mod, lemma_small_mod,
};

verus! {

/// How a side waits for the other one.
#[derive(Clone, Copy, Debug, PartialEq, Eq, Structural)]
pub enum WaitStrategy {
    Spin,
    Hybrid,
}

/// What a waiting side does next.
#[derive(Clone, Copy, Debug, PartialEq, Eq, Structural)]
pub enum WaitAction {
    /// Issue a spin-loop hint and look again.
    SpinHint,
    /// Block on the wake-up event, then look again.
    BlockOnEvent,
}

/// The number of spin rounds a hybrid waiter makes before it blocks.
pub const HYBRID_SPIN_LIMIT: usize = 256;

/// The number of message slots in each direction of a ring.
pub const RING_CAPACITY: usize = 64;

/// What a waiting side does, and its spin count afterwards, given how it
/// waits, how many spin rounds it has made, and whether it has a wake-up
/// event.
pub open spec fn wait_step_spec(strategy: WaitStrategy, spins: usize, has_event: bool) -> (WaitAction, usize) {
    match strategy {
        WaitStrategy::Spin => (WaitAction::SpinHint, spins),
        WaitStrategy::Hybrid => if spins < HYBRID_SPIN_LIMIT {
            (WaitAction::SpinHint, (spins + 1) as usize)
        } else if has_event {
            (WaitAction::BlockOnEvent, 0usize)
        } else {
            (WaitAction::SpinHint, spins)
        },
    }
}

/// One round of waiting: a spinning waiter always spins; a hybrid waiter
/// spins for its first rounds, then blocks on its event when it has one
/// (starting its count again once woken).
pub fn wait_step(strategy: WaitStrategy, spins: usize, has_event: bool) -> (r: (WaitAction, usize))
    ensures
        r == wait_step_spec(strategy, spins, has_event),
{
    match strategy {
        WaitStrategy::Spin => (WaitAction::SpinHint, spins),
        WaitStrategy::Hybrid => {
            if spins < HYBRID_SPIN_LIMIT {
                (WaitAction::SpinHint, spins + 1)
            } else if has_event {
                (WaitAction::BlockOnEvent, 0)
            } else {
                (WaitAction::SpinHint, spins)
            }
        },
    }
}

/// What one look at a mailbox flag finds.
#[derive(Clone, Copy, Debug, PartialEq, Eq, Structural)]
pub enum MailboxPoll {
    /// The flag holds the awaited value.
    Arrived,
    /// The stop flag is raised (only when the caller watches it).
    Stopped,
    /// Keep waiting.
    Pending,
}

/// One look at a mailbox: the awaited value wins over a raised stop flag;
/// `stop` is `None` when the caller does not watch the stop flag.
pub fn mailbox_poll(flag: u32, target: u32, stop: Option<u32>) -> (r: MailboxPoll)
    ensures
        r == (if flag == target {
            MailboxPoll::Arrived
        } else if stop matches Some(s) && s != 0 {
            MailboxPoll::Stopped
        } else {
            MailboxPoll::Pending
        }),
{
    if flag == target {
        MailboxPoll::Arrived
    } else {
        match stop {
            Some(s) => if s != 0 {
                MailboxPoll::Stopped
            } else {
                MailboxPoll::Pending
            },
            None => MailboxPoll::Pending,
        }
    }
}

/// A mapping size split into the high and low 32 bits that the mapping call
/// takes.
pub fn split_mapping_size(size: usize) -> (r: (u32, u32))
    ensures
        r.0 as int * 0x1_0000_0000 + r.1 as int == size as int,
{
    let wide = size as u64;
    let high = wide / 0x1_0000_0000;
    let low = wide % 0x1_0000_0000;
    (high as u32, low as u32)
}

/// Where a mailbox's two messages sit in its mapping: the header, then the
/// request, then the response.
#[derive(Clone, Copy, Debug, PartialEq, Eq, Structural)]
pub struct MailboxLayout {
    pub header_size: usize,
    pub message_size: usize,
}

impl MailboxLayout {
    pub open spec fn mapping_size_spec(self) -> int {
        self.header_size + 2 * self.message_size
    }

    pub open spec fn fits(self) -> bool {
        self.mapping_size_spec() <= usize::MAX
    }

    pub open spec fn request_offset_spec(self) -> int {
        self.header_size as int
    }

    pub open spec fn response_offset_spec(self) -> int {
        self.header_size + self.message_size
    }

    /// The layout for a header of `header_size` bytes and messages of
    /// `message_size` bytes, when the mapping's size fits in a `usize`.
    pub fn new(header_size: usize, message_size: usize) -> (r: Option<MailboxLayout>)
        ensures
            match r {
                Some(l) => l.fits() && l.header_size == header_size && l.message_size == message_size,
                None => !(MailboxLayout { header_size, message_size }).fits(),
            },
    {
        if message_size > (usize::MAX - header_size) / 2 {
            None
        } else {
            Some(MailboxLayout { header_size, message_size })
        }
    }

    /// The size of the whole mapping.
    pub fn mapping_size(&self) -> (r: usize)
        requires
            self.fits(),
        ensures
            r == self.mapping_size_spec(),
    {
        self.header_size + self.message_size * 2
    }

    /// Where the request starts.
    pub fn request_offset(&self) -> (r: usize)
        requires
            self.fits(),
        ensures
            r == self.request_offset_spec(),
    {
        self.header_size
    }

    /// Where the response starts.
    pub fn response_offset(&self) -> (r: usize)
        requires
            self.fits(),
        ensures
            r == self.response_offset_spec(),
    {
        self.header_size + self.message_size
    }

    /// Law: the request starts after the header and ends where the response
    /// starts, and the response ends where the mapping ends: the two
    /// messages never overlap each other or the header.
    pub proof fn lemma_regions_disjoint(self)
        requires
            self.fits(),
        ensures
            self.header_size <= self.request_offset_spec(),
            self.request_offset_spec() + self.message_size <= self.response_offset_spec(),
            self.response_offset_spec() + self.message_size <= self.mapping_size_spec(),
    {
    }
}

/// Where a ring's slots sit in its mapping: the header, then the request
/// slots, then the response slots, each slot `message_size` bytes.
#[derive(Clone, Copy, Debug, PartialEq, Eq, Structural)]
pub struct RingLayout {
    pub header_size: usize,
    pub capacity: usize,
    pub message_size: usize,
}

/// Which direction of a ring.
#[derive(Clone, Copy, Debug, PartialEq, Eq, Structural)]
pub enum RingSide {
    Request,
    Response,
}

impl RingLayout {
    pub open spec fn total_size_spec(self) -> int {
        self.header_size + self.capacity * self.message_size * 2
    }

    pub open spec fn wf(self) -> bool {
        &&& self.capacity > 0
        &&& self.total_size_spec() <= usize::MAX
    }

    /// Where slot `slot` of side `side` starts.
    pub open spec fn slot_offset_spec(self, side: RingSide, slot: int) -> int {
        match side {
            RingSide::Request => self.header_size + slot * self.message_size,
            RingSide::Response => self.header_size + self.capacity * self.message_size + slot
                * self.message_size,
        }
    }

    /// The layout for the given header, slot count and message size, when
    /// the ring has a slot and its mapping's size fits in a `usize`.
    pub fn new(header_size: usize, capacity: usize, message_size: usize) -> (r: Option<RingLayout>)
        ensures
            match r {
                Some(l) => l.wf() && l.header_size == header_size && l.capacity == capacity
                    && l.message_size == message_size,
                None => !(RingLayout { header_size, capacity, message_size }).wf(),
            },
    {
        if capacity == 0 {
            return None;
        }
        let room = (usize::MAX - header_size) / 2;
        if message_size != 0 && capacity > room / message_size {
            proof {
                assert(capacity * message_size > room) by (nonlinear_arith)
                    requires
                        message_size > 0,
                        capacity > room / message_size,
                {
                }
            }
            return None;
        }
        proof {
            assert(capacity * message_size <= room) by (nonlinear_arith)
                requires
                    message_size == 0 || capacity <= room / message_size,
            {
                if message_size > 0 {
                    assert(capacity * message_size <= (room / message_size) * message_size);
                }
            }
        }
        Some(RingLayout { header_size, capacity, message_size })
    }

    /// The size of the whole mapping.
    pub fn total_size(&self) -> (r: usize)
        requires
            self.wf(),
        ensures
            r == self.total_size_spec(),
    {
        proof {
            assert(self.capacity * self.message_size <= self.capacity * self.message_size * 2)
                by (nonlinear_arith);
        }
        self.header_size + self.capacity * self.message_size * 2
    }

    /// Where slot `slot` of side `side` starts.
    pub fn slot_offset(&self, side: RingSide, slot: usize) -> (r: usize)
        requires
            self.wf(),
            slot < self.capacity,
        ensures
            r == self.slot_offset_spec(side, slot as int),
    {
        proof {
            self.lemma_slot_inside(side, slot as int);
            assert(slot * self.message_size <= self.capacity * self.message_size) by (nonlinear_arith)
                requires
                    slot < self.capacity,
            ;
        }
        match side {
            RingSide::Request => self.header_size + slot * self.message_size,
            RingSide::Response => self.header_size + self.capacity * self.message_size + slot
                * self.message_size,
        }
    }

    /// Law: every slot lies after the header and inside the mapping.
    pub proof fn lemma_slot_inside(self, side: RingSide, slot: int)
        requires
            self.wf(),
            0 <= slot < self.capacity,
        ensures
            self.header_size <= self.slot_offset_spec(side, slot),
            self.slot_offset_spec(side, slot) + self.message_size <= self.total_size_spec(),
    {
        assert((slot + 1) * self.message_size <= self.capacity * self.message_size) by (nonlinear_arith)
            requires
                slot + 1 <= self.capacity,
        ;
        assert(slot * self.message_size >= 0) by (nonlinear_arith)
            requires
                slot >= 0,
        ;
        assert((slot + 1) * self.message_size == slot * self.message_size + self.message_size)
            by (nonlinear_arith);
        assert(self.capacity * self.message_size * 2 == self.capacity * self.message_size
            + self.capacity * self.message_size) by (nonlinear_arith);
    }

    /// Law: two different slots never overlap, whether on the same side or
    /// on different sides.
    pub proof fn lemma_slots_disjoint(self, side1: RingSide, slot1: int, side2: RingSide, slot2: int)
        requires
            self.wf(),
            0 <= slot1 < self.capacity,
            0 <= slot2 < self.capacity,
            side1 != side2 || slot1 != slot2,
        ensures
            self.slot_offset_spec(side1, slot1) + self.message_size <= self.slot_offset_spec(side2, slot2)
                || self.slot_offset_spec(side2, slot2) + self.message_size <= self.slot_offset_spec(
                side1,
                slot1,
            ),
    {
        let m = self.message_size;
        let c = self.capacity;
        if side1 == side2 {
            if slot1 < slot2 {
                assert(slot1 * m + m <= slot2 * m) by (nonlinear_arith)
                    requires
                        slot1 + 1 <= slot2,
                        m >= 0,
                ;
            } else {
                assert(slot2 * m + m <= slot1 * m) by (nonlinear_arith)
                    requires
                        slot2 + 1 <= slot1,
                        m >= 0,
                ;
            }
        } else {
            assert(slot1 * m + m <= c * m) by (nonlinear_arith)
                requires
                    slot1 + 1 <= c,
                    m >= 0,
            ;
            assert(slot2 * m + m <= c * m) by (nonlinear_arith)
                requires
                    slot2 + 1 <= c,
                    m >= 0,
            ;
            assert(slot1 * m >= 0 && slot2 * m >= 0) by (nonlinear_arith)
                requires
                    slot1 >= 0,
                    slot2 >= 0,
                    m >= 0,
            ;
        }
    }
}

/// The number of distinct index values: indices count modulo this.
pub open spec fn index_space() -> int {
    usize::MAX as int + 1
}

/// The number of messages between the read index and the write index.
pub open spec fn ring_len(write: usize, read: usize) -> int {
    (write - read) % index_space()
}

/// The index that follows `i`, wrapping at the end of the index space.
pub open spec fn next_index(i: usize) -> usize {
    ((i + 1) % index_space()) as usize
}

/// The messages waiting in a ring, oldest first: the slots that the indices
/// from the read index up to the write index select.
pub open spec fn ring_contents(slots: Seq<Seq<u8>>, write: usize, read: usize, capacity: usize) -> Seq<Seq<u8>> {
    Seq::new(
        ring_len(write, read) as nat,
        |j: int| slots[((read + j) % index_space()) % (capacity as int)],
    )
}

/// The indices of a ring are consistent: no more messages wait than there
/// are slots, and the slot count divides the index space, so that slots are
/// reused in order when the indices wrap.
pub open spec fn ring_ok(write: usize, read: usize, capacity: usize) -> bool {
    &&& capacity > 0
    &&& index_space() % (capacity as int) == 0
    &&& ring_len(write, read) <= capacity
}

/// What a producer does with its next message.
#[derive(Clone, Copy, Debug, PartialEq, Eq, Structural)]
pub enum PushStep {
    /// Write the message into slot `slot`, then publish `next_write`.
    Store { slot: usize, next_write: usize },
    /// Every slot holds an unread message: wait and look again.
    Full,
}

/// What a consumer does next.
#[derive(Clone, Copy, Debug, PartialEq, Eq, Structural)]
pub enum PopStep {
    /// Copy the message out of slot `slot`, then publish `next_read`.
    Load { slot: usize, next_read: usize },
    /// No message waits.
    Empty,
}

/// A producer's decision, from the write and read indices it loaded: store
/// into the slot the write index selects when fewer than `capacity`
/// messages wait.
pub fn push_step(write: usize, read: usize, capacity: usize) -> (r: PushStep)
    requires
        capacity > 0,
    ensures
        r == (if ring_len(write, read) < capacity {
            PushStep::Store { slot: (write % capacity) as usize, next_write: next_index(write) }
        } else {
            PushStep::Full
        }),
{
    proof {
        lemma_wrapping_sub_is_len(write, read);
        lemma_wrapping_add_one(write);
    }
    if write.wrapping_sub(read) < capacity {
        PushStep::Store { slot: write % capacity, next_write: write.wrapping_add(1) }
    } else {
        PushStep::Full
    }
}

/// A consumer's decision, from the write and read indices it loaded: load
/// from the slot the read index selects when the indices differ.
pub fn pop_step(write: usize, read: usize, capacity: usize) -> (r: PopStep)
    requires
        capacity > 0,
    ensures
        r == (if write != read {
            PopStep::Load { slot: (read % capacity) as usize, next_read: next_index(read) }
        } else {
            PopStep::Empty
        }),
{
    proof {
        lemma_wrapping_add_one(read);
    }
    if write != read {
        PopStep::Load { slot: read % capacity, next_read: read.wrapping_add(1) }
    } else {
        PopStep::Empty
    }
}

/// What a consumer that the producer may ask to stop does next.
#[derive(Clone, Copy, Debug, PartialEq, Eq, Structural)]
pub enum ConsumerStep {
    /// Copy the message out of slot `slot`, then publish `next_read`.
    Load { slot: usize, next_read: usize },
    /// The ring is empty and the producer has asked to stop.
    Stop,
    /// The ring is empty: wait, then look again.
    Wait,
}

/// A consumer's decision, from the indices it loaded and the stop flag it
/// loaded after them: a waiting message is always taken, even after a stop
/// request; only an empty ring honours the request.
pub fn consumer_step(write: usize, read: usize, capacity: usize, stop: u32) -> (r: ConsumerStep)
    requires
        capacity > 0,
    ensures
        r == (if write != read {
            ConsumerStep::Load { slot: (read % capacity) as usize, next_read: next_index(read) }
        } else if stop != 0 {
            ConsumerStep::Stop
        } else {
            ConsumerStep::Wait
        }),
        r is Stop ==> ring_len(write, read) == 0,
{
    proof {
        assert(write == read ==> ring_len(write, read) == 0) by {
            vstd::arithmetic::div_mod::lemma_small_mod(0, index_space() as nat);
        }
    }
    match pop_step(write, read, capacity) {
        PopStep::Load { slot, next_read } => ConsumerStep::Load { slot, next_read },
        PopStep::Empty => {
            if stop != 0 {
                ConsumerStep::Stop
            } else {
                ConsumerStep::Wait
            }
        },
    }
}

proof fn lemma_wrapping_sub_is_len(write: usize, read: usize)
    ensures
        vstd::wrapping::usize_specs::wrapping_sub(write, read) as int == ring_len(write, read),
{
    let m = index_space();
    let x = write - read;
    if x >= 0 {
        lemma_small_mod(x as nat, m as nat);
    } else {
        lemma_mod_add_multiples_vanish(x, m);
        lemma_small_mod((x + m) as nat, m as nat);
    }
}

proof fn lemma_wrapping_add_one(i: usize)
    ensures
        vstd::wrapping::usize_specs::wrapping_add(i, 1) == next_index(i),
{
    let m = index_space();
    if i + 1 < m {
        lemma_small_mod((i + 1) as nat, m as nat);
    } else {
        assert(i + 1 == m);
        lemma_mod_add_multiples_vanish(0, m);
        lemma_small_mod(0, m as nat);
    }
}

/// Reducing modulo the index space keeps the slot when the slot count
/// divides the index space.
proof fn lemma_slot_of_index(x: int, capacity: int)
    requires
        capacity > 0,
        index_space() % capacity == 0,
    ensures
        (x % index_space()) % capacity == x % capacity,
{
    let m = index_space();
    let q = m / capacity;
    lemma_fundamental_div_mod(m, capacity);
    assert(m == capacity * q);
    lemma_mod_mod(x, capacity, q);
}

proof fn lemma_capacity_at_most_space(capacity: int)
    requires
        capacity > 0,
        index_space() % capacity == 0,
    ensures
        capacity <= index_space(),
{
    let m = index_space();
    lemma_fundamental_div_mod(m, capacity);
    let q = m / capacity;
    assert(q >= 1) by {
        if q <= 0 {
            assert(capacity * q <= 0) by (nonlinear_arith)
                requires
                    capacity > 0,
                    q <= 0,
            ;
        }
    }
    assert(capacity * q >= capacity) by (nonlinear_arith)
        requires
            capacity > 0,
            q >= 1,
    ;
}

/// Law: storing a message where the producer's decision says, and publishing
/// the new write index, appends exactly that message to the ring and keeps
/// its indices consistent; no unread message is overwritten.
pub proof fn lemma_push_appends(
    slots: Seq<Seq<u8>>,
    write: usize,
    read: usize,
    capacity: usize,
    message: Seq<u8>,
)
    requires
        ring_ok(write, read, capacity),
        slots.len() == capacity,
        ring_len(write, read) < capacity,
    ensures
        ring_ok(next_index(write), read, capacity),
        ring_contents(slots.update((write as int) % (capacity as int), message), next_index(write), read, capacity)
            == ring_contents(slots, write, read, capacity).push(message),
{
    let m = index_space();
    let c = capacity as int;
    let len = ring_len(write, read);
    let w1 = next_index(write);
    let new_slots = slots.update((write as int) % c, message);
    lemma_capacity_at_most_space(c);
    lemma_mod_bound(write - read, m);
    // write is read + len, modulo the index space
    assert((write as int) % c == (read + len) % c) by {
        lemma_fundamental_div_mod(write - read, m);
        let k = (write - read) / m;
        assert(write - read == m * k + len);
        lemma_slot_of_index(write as int, c);
        lemma_slot_of_index(read + len, c);
        assert(((read + len) - (write as int)) % m == 0) by {
            assert((read + len) - (write as int) == -(m * k));
            lemma_mod_add_multiples_vanish(0, m);
            vstd::arithmetic::div_mod::lemma_mod_multiples_vanish(-k, 0, m);
            lemma_small_mod(0, m as nat);
        }
        lemma_mod_equivalence(read + len, write as int, m);
        lemma_small_mod(write as nat, m as nat);
    }
    // the new length is one more
    assert(ring_len(w1, read) == len + 1) by {
        lemma_wrapping_add_one(write);
        let x = w1 - read;
        lemma_fundamental_div_mod(write - read, m);
        let k = (write - read) / m;
        if write + 1 < m {
            lemma_small_mod((write + 1) as nat, m as nat);
            assert(x == write - read + 1);
            assert(x == m * k + (len + 1));
        } else {
            assert(w1 == 0) by {
                lemma_mod_add_multiples_vanish(0, m);
                lemma_small_mod(0, m as nat);
            }
            assert(x == m * k + (len + 1) - m);
            assert(x == m * (k - 1) + (len + 1)) by (nonlinear_arith)
                requires
                    x == m * k + (len + 1) - m,
            ;
        }
        lemma_small_mod((len + 1) as nat, m as nat);
        vstd::arithmetic::div_mod::lemma_mod_multiples_vanish(
            if write + 1 < m { k } else { k - 1 },
            len + 1,
            m,
        );
    }
    let old_c = ring_contents(slots, write, read, capacity);
    let new_c = ring_contents(new_slots, w1, read, capacity);
    assert forall|j: int| 0 <= j < len implies #[trigger] new_c[j] == old_c[j] by {
        lemma_slot_of_index(read + j, c);
        // slot of read + j differs from slot of read + len
        if (read + j) % c == (read + len) % c {
            lemma_mod_equivalence(read + len, read + j, c);
            assert((len - j) % c == 0);
            lemma_small_mod((len - j) as nat, c as nat);
            assert(false);
        }
        lemma_mod_bound(read + j, c);
        lemma_mod_bound(write as int, c);
    }
    assert(new_c[len] == message) by {
        lemma_slot_of_index(read + len, c);
        lemma_mod_bound(write as int, c);
    }
    assert(new_c =~= old_c.push(message));
}

/// Law: the message in the slot the consumer's decision selects is the
/// oldest waiting message, and publishing the new read index removes exactly
/// that message and keeps the indices consistent.
pub proof fn lemma_pop_takes_oldest(slots: Seq<Seq<u8>>, write: usize, read: usize, capacity: usize)
    requires
        ring_ok(write, read, capacity),
        slots.len() == capacity,
        write != read,
    ensures
        ring_len(write, read) > 0,
        slots[(read as int) % (capacity as int)] == ring_contents(slots, write, read, capacity)[0],
        ring_ok(write, next_index(read), capacity),
        ring_contents(slots, write, next_index(read), capacity) == ring_contents(
            slots,
            write,
            read,
            capacity,
        ).drop_first(),
{
    let m = index_space();
    let c = capacity as int;
    let len = ring_len(write, read);
    let r1 = next_index(read);
    lemma_capacity_at_most_space(c);
    lemma_mod_bound(write - read, m);
    assert(len > 0) by {
        if len == 0 {
            lemma_fundamental_div_mod(write - read, m);
            let k = (write - read) / m;
            assert(write - read == m * k);
            if k > 0 {
                assert(m * k >= m) by (nonlinear_arith)
                    requires
                        k > 0,
                        m > 0,
                ;
            } else if k < 0 {
                assert(m * k <= -m) by (nonlinear_arith)
                    requires
                        k < 0,
                        m > 0,
                ;
            }
        }
    }
    lemma_small_mod(read as nat, m as nat);
    lemma_wrapping_add_one(read);
    // the new length is one less
    assert(ring_len(write, r1) == len - 1) by {
        lemma_fundamental_div_mod(write - read, m);
        let k = (write - read) / m;
        let x = write - r1;
        if read + 1 < m {
            lemma_small_mod((read + 1) as nat, m as nat);
            assert(x == m * k + (len - 1));
            vstd::arithmetic::div_mod::lemma_mod_multiples_vanish(k, len - 1, m);
        } else {
            assert(r1 == 0) by {
                lemma_mod_add_multiples_vanish(0, m);
                lemma_small_mod(0, m as nat);
            }
            assert(x == m * k + (len - 1) + m);
            assert(x == m * (k + 1) + (len - 1)) by (nonlinear_arith)
                requires
                    x == m * k + (len - 1) + m,
            ;
            vstd::arithmetic::div_mod::lemma_mod_multiples_vanish(k + 1, len - 1, m);
        }
        lemma_small_mod((len - 1) as nat, m as nat);
    }
    let old_c = ring_contents(slots, write, read, capacity);
    let new_c = ring_contents(slots, write, r1, capacity);
    assert forall|j: int| 0 <= j < len - 1 implies #[trigger] new_c[j] == old_c[j + 1] by {
        lemma_slot_of_index(r1 + j, c);
        lemma_slot_of_index(read + (j + 1), c);
        if read + 1 < m {
            lemma_small_mod((read + 1) as nat, m as nat);
        } else {
            assert(r1 == 0) by {
                lemma_mod_add_multiples_vanish(0, m);
                lemma_small_mod(0, m as nat);
            }
            // (m + j) % c == j % c
            lemma_mod_add_multiples_vanish(j, m);
            lemma_slot_of_index(m + j, c);
            lemma_slot_of_index(j, c);
        }
    }
    assert(new_c =~= old_c.drop_first());
}

} // verus!
