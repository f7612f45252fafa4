//! Decision core of a cross-process memory reader.
//!
//! Reading another process's memory is a conversation with the operating
//! system; this crate holds every decision taken in that conversation and
//! leaves the system calls themselves to the caller. Each backend module
//! ([`mac`], [`linux`], [`windows`]) turns what the system reported into a
//! [`error::MemReaderError`] or a byte buffer, and [`slice::MemorySlice`]
//! turns a fixed address range into a forward-only stream of such reads.

use crate::slice::{MemorySlice, SliceView};
use vstd::prelude::*;

pub mod error;
pub mod linux;
pub mod mac;
pub mod names;
pub mod slice;
pub mod windows;

verus! {

/// Readers that hand out [`MemorySlice`]s over ranges of their target's
/// memory.
pub trait ProvidesSlices: Sized {
    /// A slice over the memory between the `start` and `end` addresses.
    fn address_slice(&self, start: usize, end: usize) -> (slice: MemorySlice<'_, Self>)
        ensures
            slice@ == SliceView::fresh(start as nat, end as nat),
            slice.reader() == self,
    ;

    /// A slice over the memory between the `start` address and the address
    /// `n` bytes after it.
    fn address_slice_len(&self, start: usize, n: usize) -> (slice: MemorySlice<'_, Self>)
        requires
            start + n <= usize::MAX,
        ensures
            slice@ == SliceView::fresh(start as nat, (start + n) as nat),
            slice.reader() == self,
    ;
}

} // verus!
