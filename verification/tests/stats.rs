use ipc_bench::stats::{measurement_batch_size, measurement_batches};

#[test]
fn batch_size_is_a_hundredth_rounded_up_and_clamped() {
    assert_eq!(measurement_batch_size(0), 1);
    assert_eq!(measurement_batch_size(1), 1);
    assert_eq!(measurement_batch_size(100), 1);
    assert_eq!(measurement_batch_size(101), 2);
    assert_eq!(measurement_batch_size(1000), 10);
    assert_eq!(measurement_batch_size(9999), 100);
    assert_eq!(measurement_batch_size(100_000), 100);
    assert_eq!(measurement_batch_size(usize::MAX), 100);
}

#[test]
fn batches_cover_the_message_count() {
    assert!(measurement_batches(0).is_empty());
    assert_eq!(measurement_batches(3), vec![1, 1, 1]);
    let b = measurement_batches(1005);
    assert_eq!(b.len(), 92);
    assert!(b[..91].iter().all(|&x| x == 11));
    assert_eq!(b[91], 4);
    for count in [1usize, 7, 100, 250, 1000, 12_345, 100_000] {
        let batches = measurement_batches(count);
        let size = measurement_batch_size(count);
        assert_eq!(batches.iter().sum::<usize>(), count);
        assert!(batches.iter().all(|&b| b >= 1 && b <= size));
    }
}

#[test]
fn batch_counts_round_up_and_stay_within_target() {
    assert_eq!(measurement_batches(10_000).len(), 100);
    assert_eq!(measurement_batches(250).len(), 84);
    assert_eq!(measurement_batches(9_999).len(), 100);
    assert_eq!(measurement_batches(1).len(), 1);
    assert_eq!(measurement_batches(20_001).len(), 201);
    for n in [0usize, 1, 99, 100, 101, 5_000, 9_901, 10_000] {
        assert!(measurement_batches(n).len() <= 100);
    }
}
