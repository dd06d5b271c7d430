use ipc_bench::transfer::{Transfer, TransferError};

#[test]
fn transfer_moves_every_byte() {
    let mut t = Transfer::new(10);
    assert!(!t.is_complete());
    assert_eq!(t.next_chunk(), Ok(10));
    assert_eq!(t.advance(4), Ok(()));
    assert_eq!(t.remaining(), 6);
    assert_eq!(t.next_chunk(), Ok(6));
    assert_eq!(t.advance(0), Err(TransferError::NothingMoved));
    assert_eq!(t.done, 4);
    assert_eq!(t.advance(6), Ok(()));
    assert!(t.is_complete());
    assert!(Transfer::new(0).is_complete());
}

#[test]
fn oversized_chunk_is_refused() {
    let t = Transfer::new(usize::MAX);
    assert_eq!(t.next_chunk(), Err(TransferError::ChunkTooLarge));
    let t = Transfer { len: 1 << 33, done: (1 << 33) - 5 };
    assert_eq!(t.next_chunk(), Ok(5));
}
