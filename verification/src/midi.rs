//! Value types shared by the queue and its callers.

use vstd::prelude::*;

verus! {

/// One MIDI event: a status byte, two data bytes and the time it was taken.
#[derive(Clone, Copy, Debug, PartialEq, Eq, Structural)]
pub struct PmEvent {
    pub status: u8,
    pub data1: u8,
    pub data2: u8,
    pub timestamp: u32,
}

/// What a queue operation reports.
#[derive(Clone, Copy, Debug, PartialEq, Eq, Structural)]
pub enum PmError {
    /// The operation succeeded. As the error of a dequeue it means that
    /// the queue held no event, which is an ordinary outcome.
    PmNoError,
    /// Memory could not be allocated.
    PmInsufficientMemory,
    /// The queue was full and the event was dropped.
    PmBufferOverflow,
    /// The queue has no backing storage.
    PmBadPtr,
    /// An argument was out of range.
    PmBadData,
}

} // verus!
