//! How a trial's measured round trips are split into timed batches.

use vstd::prelude::*;

verus! {

/// The number of batches a trial aims for.
pub const TARGET_BATCHES_PER_TRIAL: usize = 100;

/// The largest number of round trips timed as one batch.
pub const MAX_BATCH_SIZE: usize = 100;

/// `message_count / 100` rounded up, kept within `1..=100`.
pub open spec fn batch_size_spec(message_count: int) -> int {
    let q = message_count / TARGET_BATCHES_PER_TRIAL as int + if message_count % TARGET_BATCHES_PER_TRIAL as int == 0 {
        0int
    } else {
        1int
    };
    if q < 1 {
        1
    } else if q > MAX_BATCH_SIZE as int {
        MAX_BATCH_SIZE as int
    } else {
        q
    }
}

/// The batch sizes that time `remaining` round trips: full batches of `size`,
/// then what is left.
pub open spec fn batch_plan(remaining: nat, size: nat) -> Seq<nat>
    decreases remaining,
{
    if remaining == 0 || size == 0 {
        Seq::empty()
    } else {
        let ops = if remaining < size { remaining } else { size };
        seq![ops] + batch_plan((remaining - ops) as nat, size)
    }
}

pub open spec fn seq_sum(s: Seq<nat>) -> nat
    decreases s.len(),
{
    if s.len() == 0 {
        0
    } else {
        s[0] + seq_sum(s.drop_first())
    }
}

/// The number of round trips timed together in one batch of a trial of
/// `message_count` round trips.
pub fn measurement_batch_size(message_count: usize) -> (r: usize)
    ensures
        r == batch_size_spec(message_count as int),
        1 <= r <= MAX_BATCH_SIZE,
{
    let q = message_count / TARGET_BATCHES_PER_TRIAL + if message_count % TARGET_BATCHES_PER_TRIAL
        == 0 {
        0
    } else {
        1
    };
    if q < 1 {
        1
    } else if q > MAX_BATCH_SIZE {
        MAX_BATCH_SIZE
    } else {
        q
    }
}

/// The sizes of the batches that a trial of `message_count` round trips is
/// timed in, in order.
pub fn measurement_batches(message_count: usize) -> (r: Vec<usize>)
    ensures
        r@.map_values(|b: usize| b as nat) == batch_plan(
            message_count as nat,
            batch_size_spec(message_count as int) as nat,
        ),
{
    let size = measurement_batch_size(message_count);
    let ghost plan = batch_plan(message_count as nat, size as nat);
    let mut batches: Vec<usize> = Vec::new();
    let mut remaining = message_count;
    while remaining > 0
        invariant
            1 <= size,
            plan == batches@.map_values(|b: usize| b as nat) + batch_plan(remaining as nat, size as nat),
        decreases remaining,
    {
        let operations = if remaining < size { remaining } else { size };
        let ghost before = batches@.map_values(|b: usize| b as nat);
        batches.push(operations);
        assert(batches@.map_values(|b: usize| b as nat) =~= before.push(operations as nat));
        remaining = remaining - operations;
        assert(plan =~= batches@.map_values(|b: usize| b as nat) + batch_plan(remaining as nat, size as nat));
    }
    assert(batch_plan(0, size as nat) =~= Seq::<nat>::empty());
    assert(plan =~= batches@.map_values(|b: usize| b as nat));
    batches
}

/// Law: the batches of a trial add up to exactly the requested number of
/// round trips, and each batch holds between one round trip and the batch
/// size.
pub proof fn lemma_batch_plan_covers(remaining: nat, size: nat)
    requires
        size >= 1,
    ensures
        seq_sum(batch_plan(remaining, size)) == remaining,
        forall|i: int|
            0 <= i < batch_plan(remaining, size).len() ==> 1 <= #[trigger] batch_plan(
                remaining,
                size,
            )[i] <= size,
    decreases remaining,
{
    if remaining > 0 {
        let ops = if remaining < size { remaining } else { size };
        let rest = batch_plan((remaining - ops) as nat, size);
        lemma_batch_plan_covers((remaining - ops) as nat, size);
        let p = batch_plan(remaining, size);
        assert(p == seq![ops] + rest);
        assert(p.drop_first() =~= rest);
        assert forall|i: int| 0 <= i < p.len() implies 1 <= #[trigger] p[i] <= size by {
            if i > 0 {
                assert(p[i] == rest[i - 1]);
            }
        }
    }
}

/// Law: a trial of `remaining` round trips in batches of `size` has
/// `remaining / size` batches, rounded up.
pub proof fn lemma_batch_count(remaining: nat, size: nat)
    requires
        size >= 1,
    ensures
        batch_plan(remaining, size).len() == (remaining + size - 1) / (size as int),
    decreases remaining,
{
    if remaining == 0 {
        assert((size - 1) / (size as int) == 0) by {
            vstd::arithmetic::div_mod::lemma_basic_div(size - 1, size as int);
        }
    } else if remaining < size {
        assert(batch_plan(0, size).len() == 0);
        vstd::arithmetic::div_mod::lemma_fundamental_div_mod_converse(
            (remaining + size - 1) as int,
            size as int,
            1,
            remaining - 1,
        );
    } else {
        lemma_batch_count((remaining - size) as nat, size);
        let x = remaining - size + size - 1;
        vstd::arithmetic::div_mod::lemma_div_plus_one(x, size as int);
        assert((x + size) / (size as int) == x / (size as int) + 1);
    }
}

/// Law: a trial of at most `100 * 100` round trips is timed in at most 100
/// batches.
pub proof fn lemma_batch_count_bound(message_count: nat)
    requires
        message_count <= TARGET_BATCHES_PER_TRIAL * MAX_BATCH_SIZE,
    ensures
        batch_plan(message_count, batch_size_spec(message_count as int) as nat).len()
            <= TARGET_BATCHES_PER_TRIAL,
{
    let size = batch_size_spec(message_count as int);
    lemma_batch_count(message_count, size as nat);
    let m = message_count as int;
    vstd::arithmetic::div_mod::lemma_fundamental_div_mod(m, 100);
    vstd::arithmetic::div_mod::lemma_mod_bound(m, 100);
    assert(100 * size >= m);
    assert((m + size - 1) / size <= 100) by (nonlinear_arith)
        requires
            size >= 1,
            100 * size >= m,
            m >= 0,
    {
        vstd::arithmetic::div_mod::lemma_div_is_ordered(m + size - 1, 100 * size + size - 1, size);
        vstd::arithmetic::div_mod::lemma_fundamental_div_mod_converse(100 * size + size - 1, size, 100, size - 1);
    }
}

} // verus!
