use ipc_bench::shared_memory::{
    consumer_step, mailbox_poll, pop_step, split_mapping_size, push_step, wait_step, MailboxLayout, MailboxPoll, PopStep, PushStep, ConsumerStep,
    RingLayout, RingSide, WaitAction, WaitStrategy, HYBRID_SPIN_LIMIT, RING_CAPACITY,
};

#[test]
fn spinning_waiter_never_blocks() {
    assert_eq!(wait_step(WaitStrategy::Spin, 0, true), (WaitAction::SpinHint, 0));
    assert_eq!(wait_step(WaitStrategy::Spin, 10_000, true), (WaitAction::SpinHint, 10_000));
}

#[test]
fn hybrid_waiter_spins_then_blocks() {
    let mut spins = 0;
    for _ in 0..HYBRID_SPIN_LIMIT {
        let (action, next) = wait_step(WaitStrategy::Hybrid, spins, true);
        assert_eq!(action, WaitAction::SpinHint);
        spins = next;
    }
    assert_eq!(spins, 256);
    assert_eq!(wait_step(WaitStrategy::Hybrid, spins, true), (WaitAction::BlockOnEvent, 0));
    assert_eq!(wait_step(WaitStrategy::Hybrid, spins, false), (WaitAction::SpinHint, 256));
}

#[test]
fn mailbox_poll_prefers_the_value() {
    assert_eq!(mailbox_poll(1, 1, Some(1)), MailboxPoll::Arrived);
    assert_eq!(mailbox_poll(0, 1, Some(1)), MailboxPoll::Stopped);
    assert_eq!(mailbox_poll(0, 1, Some(0)), MailboxPoll::Pending);
    assert_eq!(mailbox_poll(0, 1, None), MailboxPoll::Pending);
}

#[test]
fn mailbox_layout_offsets() {
    let layout = MailboxLayout::new(12, 1024).unwrap();
    assert_eq!(layout.mapping_size(), 12 + 2048);
    assert_eq!(layout.request_offset(), 12);
    assert_eq!(layout.response_offset(), 12 + 1024);
    assert!(MailboxLayout::new(12, usize::MAX / 2).is_none());
}

#[test]
fn ring_layout_offsets() {
    let layout = RingLayout::new(56, RING_CAPACITY, 100).unwrap();
    assert_eq!(layout.total_size(), 56 + 64 * 100 * 2);
    assert_eq!(layout.slot_offset(RingSide::Request, 0), 56);
    assert_eq!(layout.slot_offset(RingSide::Request, 63), 56 + 6300);
    assert_eq!(layout.slot_offset(RingSide::Response, 0), 56 + 6400);
    assert_eq!(layout.slot_offset(RingSide::Response, 63), 56 + 6400 + 6300);
    assert!(RingLayout::new(56, 0, 100).is_none());
    assert!(RingLayout::new(56, 64, usize::MAX / 64).is_none());
}

#[test]
fn ring_push_and_pop_decisions() {
    assert_eq!(push_step(0, 0, 64), PushStep::Store { slot: 0, next_write: 1 });
    assert_eq!(push_step(64, 0, 64), PushStep::Full);
    assert_eq!(push_step(70, 7, 64), PushStep::Store { slot: 6, next_write: 71 });
    assert_eq!(
        push_step(usize::MAX, usize::MAX - 3, 64),
        PushStep::Store { slot: 63, next_write: 0 }
    );
    assert_eq!(push_step(2, usize::MAX - 61, 64), PushStep::Full);
    assert_eq!(pop_step(5, 5, 64), PopStep::Empty);
    assert_eq!(pop_step(6, 5, 64), PopStep::Load { slot: 5, next_read: 6 });
    assert_eq!(pop_step(1, usize::MAX, 64), PopStep::Load { slot: 63, next_read: 0 });
}

#[test]
fn ring_is_first_in_first_out() {
    let capacity = 4;
    let mut slots = vec![0u8; capacity];
    let (mut write, mut read) = (usize::MAX - 1, usize::MAX - 1);
    let mut popped = Vec::new();
    for message in 1..=10u8 {
        match push_step(write, read, capacity) {
            PushStep::Store { slot, next_write } => {
                slots[slot] = message;
                write = next_write;
            }
            PushStep::Full => panic!("ring should have room"),
        }
        if message % 3 == 0 {
            while let PopStep::Load { slot, next_read } = pop_step(write, read, capacity) {
                popped.push(slots[slot]);
                read = next_read;
            }
        }
    }
    while let PopStep::Load { slot, next_read } = pop_step(write, read, capacity) {
        popped.push(slots[slot]);
        read = next_read;
    }
    assert_eq!(popped, (1..=10).collect::<Vec<u8>>());
}

#[test]
fn mapping_size_halves() {
    assert_eq!(split_mapping_size(0), (0, 0));
    assert_eq!(split_mapping_size(12 + 2 * 1024), (0, 2060));
    assert_eq!(split_mapping_size(usize::MAX), ((usize::MAX as u64 >> 32) as u32, usize::MAX as u32));
}

#[test]
fn consumer_takes_waiting_messages_before_stopping() {
    assert_eq!(consumer_step(6, 5, 64, 1), ConsumerStep::Load { slot: 5, next_read: 6 });
    assert_eq!(consumer_step(6, 5, 64, 0), ConsumerStep::Load { slot: 5, next_read: 6 });
    assert_eq!(consumer_step(5, 5, 64, 1), ConsumerStep::Stop);
    assert_eq!(consumer_step(5, 5, 64, 0), ConsumerStep::Wait);
    assert_eq!(consumer_step(0, usize::MAX, 64, 7), ConsumerStep::Load { slot: 63, next_read: 0 });
}
