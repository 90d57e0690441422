//! The double-ended allocator for copyable data: two memory chunks side by
//! side, one for resident data and one for temporary data, each reset on its own.

use crate::allocation_error::{AllocationError, AllocationResult};
use crate::memory_chunk::{ChunkType, ChunkView, MemoryChunk};
use crate::stacks::stack_allocator::{copy_result, Allocation};
use crate::utils::{
    checked_round_up,
    get_type_description,
    is_aligned,
    lemma_pow2_is_positive,
    type_description_of,
    TypeDescription,
};
use vstd::arithmetic::power2::is_pow2;
use vstd::layout::align_of;
use vstd::prelude::*;

verus! {

/// The view of a double-ended allocator for copyable data: its two chunks.
pub ghost struct DoubleEndedCopyView {
    /// The chunk for resident data.
    pub resident: ChunkView,
    /// The chunk for temporary data.
    pub temp: ChunkView,
}

/// The message of the error that an allocation in the given chunk fails with.
pub open spec fn out_of_memory_message(chunk: ChunkType) -> Seq<char> {
    match chunk {
        ChunkType::TempData =>
            "The temporary storage of the copy double ended allocator is out of memory !"@,
        ChunkType::ResidentData =>
            "The resideent storage of copy double ended allocator is out of memory !"@,
    }
}

impl DoubleEndedCopyView {
    /// Both chunks are well formed.
    pub open spec fn wf(self) -> bool {
        &&& self.resident.wf()
        &&& self.temp.wf()
    }

    /// The chunk for the given kind of data.
    pub open spec fn chunk(self, chunk: ChunkType) -> ChunkView {
        match chunk {
            ChunkType::TempData => self.temp,
            ChunkType::ResidentData => self.resident,
        }
    }

    /// The allocator with `view` in the place of the chunk for the given kind of data.
    pub open spec fn with_chunk(self, chunk: ChunkType, view: ChunkView) -> DoubleEndedCopyView {
        match chunk {
            ChunkType::TempData => DoubleEndedCopyView { temp: view, ..self },
            ChunkType::ResidentData => DoubleEndedCopyView { resident: view, ..self },
        }
    }

    /// Replacing one chunk leaves the other as it was.
    pub proof fn lemma_chunks_are_independent(self, chunk: ChunkType, view: ChunkView)
        ensures
            self.with_chunk(chunk, view).chunk(chunk) == view,
            chunk == ChunkType::TempData ==> self.with_chunk(chunk, view).resident
                == self.resident,
            chunk == ChunkType::ResidentData ==> self.with_chunk(chunk, view).temp == self.temp,
    {
    }
}

/// A double-ended allocator for data implementing the `Copy` trait.
///
/// It manages two memory storages, one for resident data and one for
/// temporary data. Each operation names the storage that it is meant for.
pub struct DoubleEndedStackAllocatorCopy {
    storage_resident: MemoryChunk,
    storage_temp: MemoryChunk,
}

impl View for DoubleEndedStackAllocatorCopy {
    type V = DoubleEndedCopyView;

    closed spec fn view(&self) -> DoubleEndedCopyView {
        DoubleEndedCopyView { resident: self.storage_resident@, temp: self.storage_temp@ }
    }
}

impl DoubleEndedStackAllocatorCopy {
    /// Creates a DoubleEndedStackAllocatorCopy with the given capacities, in bytes.
    ///
    /// The first capacity is for the resident data, the second for the temporary data.
    pub fn with_capacity(capacity_resident: usize, capacity_temporary: usize) -> (allocator: Self)
        ensures
            allocator@.wf(),
            allocator@.resident.capacity() == capacity_resident,
            allocator@.temp.capacity() == capacity_temporary,
            allocator@.resident.fill == 0,
            allocator@.temp.fill == 0,
    {
        DoubleEndedStackAllocatorCopy {
            storage_resident: MemoryChunk::new(capacity_resident),
            storage_temp: MemoryChunk::new(capacity_temporary),
        }
    }

    /// Returns the memory storage holding resident data.
    pub fn resident_storage(&self) -> (storage: &MemoryChunk)
        ensures
            storage@ == self@.resident,
    {
        &self.storage_resident
    }

    /// Returns the memory storage holding temporary data.
    pub fn temp_storage(&self) -> (storage: &MemoryChunk)
        ensures
            storage@ == self@.temp,
    {
        &self.storage_temp
    }

    /// Allocates data in the given memory storage, returning the data together
    /// with its offset, for data that the caller goes on to change.
    ///
    /// # Error
    /// This function will return an error, and change nothing, if the
    /// allocation exceeds the maximum capacity of the memory storage.
    pub fn alloc_mut<T: Copy, F>(&mut self, chunk: &ChunkType, op: F) -> (r: AllocationResult<
        Allocation<T>,
    >) where F: FnOnce() -> T
        requires
            old(self)@.wf(),
            op.requires(()),
        ensures
            final(self)@.wf(),
            final(self)@ == old(self)@.with_chunk(*chunk, final(self)@.chunk(*chunk)),
            copy_result(
                old(self)@.chunk(*chunk),
                final(self)@.chunk(*chunk),
                type_description_of::<T>(),
                r,
                out_of_memory_message(*chunk),
            ),
            r matches Ok(allocation) ==> {
                &&& op.ensures((), allocation.value)
                &&& is_aligned(allocation.offset as int, align_of::<T>() as int)
            },
    {
        self.alloc_copy(chunk, op)
    }

    /// Allocates data in the given memory storage, returning the data together with its offset.
    ///
    /// # Error
    /// This function will return an error, and change nothing, if the
    /// allocation exceeds the maximum capacity of the memory storage.
    pub fn allocate<T: Copy, F>(&mut self, chunk: &ChunkType, op: F) -> (r: AllocationResult<
        Allocation<T>,
    >) where F: FnOnce() -> T
        requires
            old(self)@.wf(),
            op.requires(()),
        ensures
            final(self)@.wf(),
            final(self)@ == old(self)@.with_chunk(*chunk, final(self)@.chunk(*chunk)),
            copy_result(
                old(self)@.chunk(*chunk),
                final(self)@.chunk(*chunk),
                type_description_of::<T>(),
                r,
                out_of_memory_message(*chunk),
            ),
            r matches Ok(allocation) ==> {
                &&& op.ensures((), allocation.value)
                &&& is_aligned(allocation.offset as int, align_of::<T>() as int)
            },
    {
        self.alloc_copy(chunk, op)
    }

    /// Finds the place of the data in the given memory storage, runs the
    /// initialiser, and moves the first unused byte behind the data.
    fn alloc_copy<T: Copy, F>(&mut self, chunk: &ChunkType, op: F) -> (r: AllocationResult<
        Allocation<T>,
    >) where F: FnOnce() -> T
        requires
            old(self)@.wf(),
            op.requires(()),
        ensures
            final(self)@.wf(),
            final(self)@ == old(self)@.with_chunk(*chunk, final(self)@.chunk(*chunk)),
            copy_result(
                old(self)@.chunk(*chunk),
                final(self)@.chunk(*chunk),
                type_description_of::<T>(),
                r,
                out_of_memory_message(*chunk),
            ),
            r matches Ok(allocation) ==> {
                &&& op.ensures((), allocation.value)
                &&& is_aligned(allocation.offset as int, align_of::<T>() as int)
            },
    {
        let description: TypeDescription = get_type_description::<T>();

        //Get an aligned offset to place the object at.
        let (start, end) = match self.alloc_copy_inner(
            chunk,
            description.size,
            description.alignment,
        ) {
            Ok(place) => place,
            Err(e) => {
                return Err(e);
            },
        };

        //Initialize the object.
        let value: T = op();

        proof {
            lemma_pow2_is_positive(description.alignment as int);
            old(self)@.chunk(*chunk).lemma_allocated_copy(
                description.size as int,
                description.alignment as int,
            );
        }

        //Set the first unused memory address of the memory storage to the index calculated earlier.
        match chunk {
            ChunkType::TempData => {
                self.storage_temp.set_fill(end);
            },
            ChunkType::ResidentData => {
                self.storage_resident.set_fill(end);
            },
        }
        Ok(Allocation { offset: start, value })
    }

    /// Finds the place of data of `n_bytes` bytes with alignment `align` in
    /// the given memory storage: the offset of the data and the offset of the
    /// first byte behind it.
    fn alloc_copy_inner(&self, chunk: &ChunkType, n_bytes: usize, align: usize) -> (r:
        AllocationResult<(usize, usize)>)
        requires
            self@.wf(),
            is_pow2(align as int),
        ensures
            match r {
                Ok((start, end)) => {
                    &&& self@.chunk(*chunk).fits_copy(n_bytes as int, align as int)
                    &&& start == self@.chunk(*chunk).start_copy(align as int)
                    &&& end == self@.chunk(*chunk).end_copy(n_bytes as int, align as int)
                },
                Err(e) => {
                    &&& !self@.chunk(*chunk).fits_copy(n_bytes as int, align as int)
                    &&& e matches AllocationError::OutOfMemoryError(message)
                    &&& message@ == out_of_memory_message(*chunk)
                },
            },
    {
        match chunk {
            ChunkType::TempData => {
                let fill: usize = self.storage_temp.fill();

                //Get the index of the aligned memory address, which will be returned.
                let start: Option<usize> = checked_round_up(fill, align);

                //Get the index of the future first unused memory address, according to the size of the object.
                let end: Option<usize> = match start {
                    Some(start) => start.checked_add(n_bytes),
                    None => None,
                };

                //We don't grow the capacity, or create another chunk.
                match (start, end) {
                    (Some(start), Some(end)) => {
                        if end >= self.storage_temp.capacity() {
                            Err(
                                AllocationError::OutOfMemoryError(
                                    "The temporary storage of the copy double ended allocator is out of memory !".to_owned(),
                                ),
                            )
                        } else {
                            Ok((start, end))
                        }
                    },
                    _ => Err(
                        AllocationError::OutOfMemoryError(
                            "The temporary storage of the copy double ended allocator is out of memory !".to_owned(),
                        ),
                    ),
                }
            },
            ChunkType::ResidentData => {
                let fill: usize = self.storage_resident.fill();

                //Get the index of the aligned memory address, which will be returned.
                let start: Option<usize> = checked_round_up(fill, align);

                //Get the index of the future first unused memory address, according to the size of the object.
                let end: Option<usize> = match start {
                    Some(start) => start.checked_add(n_bytes),
                    None => None,
                };

                //We don't grow the capacity, or create another chunk.
                match (start, end) {
                    (Some(start), Some(end)) => {
                        if end >= self.storage_resident.capacity() {
                            Err(
                                AllocationError::OutOfMemoryError(
                                    "The resideent storage of copy double ended allocator is out of memory !".to_owned(),
                                ),
                            )
                        } else {
                            Ok((start, end))
                        }
                    },
                    _ => Err(
                        AllocationError::OutOfMemoryError(
                            "The resideent storage of copy double ended allocator is out of memory !".to_owned(),
                        ),
                    ),
                }
            },
        }
    }

    /// Returns the index of the first unused memory address of the given memory storage.
    pub fn marker(&self, chunk: &ChunkType) -> (marker: usize)
        ensures
            marker == self@.chunk(*chunk).fill,
    {
        match chunk {
            ChunkType::ResidentData => self.storage_resident.fill(),
            ChunkType::TempData => self.storage_temp.fill(),
        }
    }

    /// Reset the given memory storage: its first unused memory address moves
    /// back to the bottom.
    pub fn reset(&mut self, chunk: &ChunkType)
        requires
            old(self)@.wf(),
        ensures
            final(self)@.wf(),
            final(self)@ == old(self)@.with_chunk(*chunk, old(self)@.chunk(*chunk).with_fill(0)),
    {
        match chunk {
            ChunkType::TempData => {
                self.storage_temp.set_fill(0);
            },
            ChunkType::ResidentData => {
                self.storage_resident.set_fill(0);
            },
        }
    }

    /// Reset partially the given memory storage: its first unused memory
    /// address moves back to the marker.
    ///
    /// `marker` is a marker that this memory storage gave and that no reset of
    /// it has passed since: it is not above the first unused memory address.
    pub fn reset_to_marker(&mut self, chunk: &ChunkType, marker: usize)
        requires
            old(self)@.wf(),
            marker <= old(self)@.chunk(*chunk).fill,
        ensures
            final(self)@.wf(),
            final(self)@ == old(self)@.with_chunk(
                *chunk,
                old(self)@.chunk(*chunk).with_fill(marker as int),
            ),
    {
        match chunk {
            ChunkType::TempData => {
                self.storage_temp.set_fill(marker);
            },
            ChunkType::ResidentData => {
                self.storage_resident.set_fill(marker);
            },
        }
    }
}

} // verus!
