//! The stack allocator for copyable data: one memory chunk filled from the
//! bottom up, for data that needs no destructor.

use crate::allocation_error::{AllocationError, AllocationResult};
use crate::memory_chunk::{ChunkView, MemoryChunk};
use crate::stacks::stack_allocator::{copy_result, Allocation};
use crate::utils::{
    checked_round_up,
    get_type_description,
    is_aligned,
    lemma_pow2_is_positive,
    type_description_of,
    TypeDescription,
};
use vstd::arithmetic::power2::is_pow2;
use vstd::layout::align_of;
use vstd::prelude::*;

verus! {

/// A stack-based allocator for data implementing the `Copy` trait.
///
/// It manages a memory storage to allocate bytes in a stack-like fashion and
/// to store different types of objects in the same storage. Nothing is
/// dropped when the storage is reset: the first unused byte just moves back.
///
/// A **marker** is the index of the first unused byte at some moment. The
/// allocator can be reset to a marker, or reset entirely.
pub struct StackAllocatorCopy {
    storage: MemoryChunk,
}

impl View for StackAllocatorCopy {
    type V = ChunkView;

    closed spec fn view(&self) -> ChunkView {
        self.storage@
    }
}

impl StackAllocatorCopy {
    /// Creates a StackAllocatorCopy with the given capacity, in bytes.
    pub fn with_capacity(capacity: usize) -> (allocator: Self)
        ensures
            allocator@.wf(),
            allocator@.capacity() == capacity,
            allocator@.fill == 0,
    {
        StackAllocatorCopy { storage: MemoryChunk::new(capacity) }
    }

    /// Returns the memory storage of the allocator.
    pub fn storage(&self) -> (storage: &MemoryChunk)
        ensures
            storage@ == self@,
    {
        &self.storage
    }

    /// Allocates data in the allocator's memory, returning the data together with its offset.
    ///
    /// # Error
    /// This function will return an error, and change nothing, if the
    /// allocation exceeds the maximum storage capacity of the allocator.
    pub fn allocate<T: Copy, F>(&mut self, op: F) -> (r: AllocationResult<Allocation<T>>) where
        F: FnOnce() -> T,

        requires
            old(self)@.wf(),
            op.requires(()),
        ensures
            final(self)@.wf(),
            copy_result(
                old(self)@,
                final(self)@,
                type_description_of::<T>(),
                r,
                "The copy stack allocator is out of memory !"@,
            ),
            r matches Ok(allocation) ==> {
                &&& op.ensures((), allocation.value)
                &&& is_aligned(allocation.offset as int, align_of::<T>() as int)
            },
    {
        self.alloc_copy(op)
    }

    /// Finds the place of the data, runs the initialiser, and moves the first
    /// unused byte behind the data.
    fn alloc_copy<T: Copy, F>(&mut self, op: F) -> (r: AllocationResult<Allocation<T>>) where
        F: FnOnce() -> T,

        requires
            old(self)@.wf(),
            op.requires(()),
        ensures
            final(self)@.wf(),
            copy_result(
                old(self)@,
                final(self)@,
                type_description_of::<T>(),
                r,
                "The copy stack allocator is out of memory !"@,
            ),
            r matches Ok(allocation) ==> {
                &&& op.ensures((), allocation.value)
                &&& is_aligned(allocation.offset as int, align_of::<T>() as int)
            },
    {
        let description: TypeDescription = get_type_description::<T>();

        //Get an aligned offset to place the object at.
        let (start, end) = match self.alloc_copy_inner(description.size, description.alignment) {
            Ok(place) => place,
            Err(e) => {
                return Err(e);
            },
        };

        //Initialize the object.
        let value: T = op();

        //Set the first unused memory address of the memory chunk to the index calculated earlier.
        self.storage.set_fill(end);

        proof {
            lemma_pow2_is_positive(description.alignment as int);
            old(self)@.lemma_allocated_copy(
                description.size as int,
                description.alignment as int,
            );
        }
        Ok(Allocation { offset: start, value })
    }

    /// Finds the place of data of `n_bytes` bytes with alignment `align`: the
    /// offset of the data and the offset of the first byte behind it.
    fn alloc_copy_inner(&self, n_bytes: usize, align: usize) -> (r: AllocationResult<
        (usize, usize),
    >)
        requires
            self@.wf(),
            is_pow2(align as int),
        ensures
            match r {
                Ok((start, end)) => {
                    &&& self@.fits_copy(n_bytes as int, align as int)
                    &&& start == self@.start_copy(align as int)
                    &&& end == self@.end_copy(n_bytes as int, align as int)
                },
                Err(e) => {
                    &&& !self@.fits_copy(n_bytes as int, align as int)
                    &&& e matches AllocationError::OutOfMemoryError(message)
                    &&& message@ == "The copy stack allocator is out of memory !"@
                },
            },
    {
        //Get the index of the first unused memory address in the memory chunk.
        let fill: usize = self.storage.fill();

        //Get the index of the aligned memory address, which will be returned.
        let start: Option<usize> = checked_round_up(fill, align);

        //Get the index of the future first unused memory address, according to the size of the object.
        let end: Option<usize> = match start {
            Some(start) => start.checked_add(n_bytes),
            None => None,
        };

        //We don't grow the capacity, or create another chunk.
        match (start, end) {
            (Some(start), Some(end)) => {
                if end >= self.storage.capacity() {
                    Err(
                        AllocationError::OutOfMemoryError(
                            "The copy stack allocator is out of memory !".to_owned(),
                        ),
                    )
                } else {
                    Ok((start, end))
                }
            },
            _ => Err(
                AllocationError::OutOfMemoryError(
                    "The copy stack allocator is out of memory !".to_owned(),
                ),
            ),
        }
    }

    /// Returns the index of the first unused memory address.
    pub fn marker(&self) -> (marker: usize)
        ensures
            marker == self@.fill,
    {
        self.storage.fill()
    }

    /// Reset the allocator: the first unused memory address moves back to the bottom.
    pub fn reset(&mut self)
        requires
            old(self)@.wf(),
        ensures
            final(self)@.wf(),
            final(self)@ == old(self)@.with_fill(0),
    {
        self.storage.set_fill(0);
    }

    /// Reset partially the allocator: the first unused memory address moves back to the marker.
    ///
    /// `marker` is a marker that this allocator gave and that no reset has
    /// passed since: it is not above the first unused memory address.
    pub fn reset_to_marker(&mut self, marker: usize)
        requires
            old(self)@.wf(),
            marker <= old(self)@.fill,
        ensures
            final(self)@.wf(),
            final(self)@ == old(self)@.with_fill(marker as int),
    {
        self.storage.set_fill(marker);
    }
}

} // verus!
