//! The progress of writing or reading a whole message through a transport
//! that may move fewer bytes than asked for on each call.

use vstd::prelude::*;

verus! {

/// Why a transfer cannot go on.
#[derive(Clone, Copy, Debug, PartialEq, Eq, Structural)]
pub enum TransferError {
    /// What is left is longer than one call can ask for (more than
    /// `u32::MAX` bytes).
    ChunkTooLarge,
    /// A call moved no byte: the other end is gone.
    NothingMoved,
}

/// A message of `len` bytes, of which the first `done` have been moved.
#[derive(Clone, Copy, Debug, PartialEq, Eq, Structural)]
pub struct Transfer {
    pub len: usize,
    pub done: usize,
}

impl Transfer {
    pub open spec fn wf(&self) -> bool {
        self.done <= self.len
    }

    /// A transfer of `len` bytes that has not started.
    pub fn new(len: usize) -> (r: Transfer)
        ensures
            r.wf(),
            r.len == len,
            r.done == 0,
    {
        Transfer { len, done: 0 }
    }

    /// Whether every byte has been moved.
    pub fn is_complete(&self) -> (r: bool)
        requires
            self.wf(),
        ensures
            r == (self.done == self.len),
    {
        self.done == self.len
    }

    /// The number of bytes still to move.
    pub fn remaining(&self) -> (r: usize)
        requires
            self.wf(),
        ensures
            r == self.len - self.done,
    {
        self.len - self.done
    }

    /// The byte count to ask the next call for: everything that is left,
    /// when it fits the call's 32-bit length.
    pub fn next_chunk(&self) -> (r: Result<u32, TransferError>)
        requires
            self.wf(),
        ensures
            match r {
                Ok(n) => n == self.len - self.done,
                Err(e) => e == TransferError::ChunkTooLarge && self.len - self.done > u32::MAX,
            },
    {
        let left = self.len - self.done;
        if left > 4294967295 {
            Err(TransferError::ChunkTooLarge)
        } else {
            Ok(left as u32)
        }
    }

    /// Records that a call moved `moved` bytes (never more than it was asked
    /// for); a call that moved nothing ends the transfer.
    pub fn advance(&mut self, moved: usize) -> (r: Result<(), TransferError>)
        requires
            old(self).wf(),
            moved <= old(self).len - old(self).done,
        ensures
            final(self).wf(),
            final(self).len == old(self).len,
            match r {
                Ok(()) => moved > 0 && final(self).done == old(self).done + moved,
                Err(e) => moved == 0 && e == TransferError::NothingMoved && *final(self) == *old(
                    self,
                ),
            },
    {
        if moved == 0 {
            return Err(TransferError::NothingMoved);
        }
        self.done = self.done + moved;
        Ok(())
    }
}

} // verus!
