//! The double-buffered allocator for copyable data: two copy stack
//! allocators, of which one is active until the two are swapped.

use crate::allocation_error::AllocationResult;
use crate::memory_chunk::ChunkView;
use crate::stacks::stack_allocator::{copy_result, Allocation};
use crate::stacks::stack_allocator_copy::StackAllocatorCopy;
use crate::utils::{is_aligned, type_description_of};
use vstd::layout::align_of;
use vstd::prelude::*;

verus! {

/// The view of a double-buffered allocator for copyable data: its two
/// buffers, and which of them is active.
pub ghost struct DoubleBufferedCopyView {
    /// The two buffers.
    pub buffers: Seq<ChunkView>,
    /// `false` while the first buffer is active, `true` while the second is.
    pub current: bool,
}

impl DoubleBufferedCopyView {
    /// There are two buffers, each a well-formed chunk.
    pub open spec fn wf(self) -> bool {
        &&& self.buffers.len() == 2
        &&& self.buffers[0].wf()
        &&& self.buffers[1].wf()
    }

    /// Index of the active buffer.
    pub open spec fn active_index(self) -> int {
        if self.current {
            1
        } else {
            0
        }
    }

    /// The active buffer.
    pub open spec fn active(self) -> ChunkView {
        self.buffers[self.active_index()]
    }

    /// The inactive buffer.
    pub open spec fn inactive(self) -> ChunkView {
        self.buffers[1 - self.active_index()]
    }

    /// The allocator with `chunk` in the place of the active buffer.
    pub open spec fn with_active(self, chunk: ChunkView) -> DoubleBufferedCopyView {
        DoubleBufferedCopyView {
            buffers: self.buffers.update(self.active_index(), chunk),
            ..self
        }
    }

    /// The allocator with the other buffer active.
    pub open spec fn swapped(self) -> DoubleBufferedCopyView {
        DoubleBufferedCopyView { current: !self.current, ..self }
    }

    /// Swapping twice gives back the allocator as it was: the same buffer is
    /// active, and both buffers hold what they held.
    pub proof fn lemma_swap_is_an_involution(self)
        ensures
            self.swapped().swapped() == self,
            self.swapped().active() == self.inactive(),
            self.swapped().inactive() == self.active(),
            self.swapped().buffers == self.buffers,
    {
    }
}

/// A double-buffered allocator for data implementing the `Copy` trait.
///
/// This allocator is a wrapper around two `StackAllocatorCopy`s. It works
/// like a `StackAllocatorCopy`, and allows you to swap the buffers.
pub struct DoubleBufferedAllocatorCopy {
    buffers: [StackAllocatorCopy; 2],
    current: bool,
}

impl View for DoubleBufferedAllocatorCopy {
    type V = DoubleBufferedCopyView;

    closed spec fn view(&self) -> DoubleBufferedCopyView {
        DoubleBufferedCopyView {
            buffers: seq![self.buffers[0]@, self.buffers[1]@],
            current: self.current,
        }
    }
}

impl DoubleBufferedAllocatorCopy {
    /// Creates a DoubleBufferedAllocatorCopy: each of the two buffers gets
    /// `capacity` bytes. The first buffer is active.
    pub fn with_capacity(capacity: usize) -> (allocator: Self)
        ensures
            allocator@.wf(),
            !allocator@.current,
            forall|i: int|
                0 <= i < 2 ==> {
                    &&& (#[trigger] allocator@.buffers[i]).capacity() == capacity
                    &&& allocator@.buffers[i].fill == 0
                },
    {
        DoubleBufferedAllocatorCopy {
            buffers: [
                StackAllocatorCopy::with_capacity(capacity),
                StackAllocatorCopy::with_capacity(capacity),
            ],
            current: false,
        }
    }

    /// Index of the active buffer.
    fn active_index(&self) -> (index: usize)
        ensures
            index == self@.active_index(),
    {
        if self.current {
            1
        } else {
            0
        }
    }

    /// Allocates data in the active buffer, returning the data together with its offset.
    ///
    /// # Error
    /// This function will return an error, and change nothing, if the
    /// allocation exceeds the maximum storage capacity of the active buffer.
    pub fn allocate<T: Copy, F>(&mut self, op: F) -> (r: AllocationResult<Allocation<T>>) where
        F: FnOnce() -> T,

        requires
            old(self)@.wf(),
            op.requires(()),
        ensures
            final(self)@.wf(),
            final(self)@ == old(self)@.with_active(final(self)@.active()),
            copy_result(
                old(self)@.active(),
                final(self)@.active(),
                type_description_of::<T>(),
                r,
                "The copy stack allocator is out of memory !"@,
            ),
            r matches Ok(allocation) ==> {
                &&& op.ensures((), allocation.value)
                &&& is_aligned(allocation.offset as int, align_of::<T>() as int)
            },
    {
        let index: usize = self.active_index();
        let r = self.buffers[index].allocate(op);
        proof {
            assert(self@.buffers =~= old(self)@.buffers.update(index as int, self@.active()));
        }
        r
    }

    /// Reset the active buffer: its first unused memory address moves back to the bottom.
    pub fn reset(&mut self)
        requires
            old(self)@.wf(),
        ensures
            final(self)@.wf(),
            final(self)@ == old(self)@.with_active(old(self)@.active().with_fill(0)),
    {
        let index: usize = self.active_index();
        self.buffers[index].reset();
        proof {
            assert(self@.buffers =~= old(self)@.buffers.update(index as int, self@.active()));
        }
    }

    /// Reset partially the active buffer: its first unused memory address
    /// moves back to the marker.
    ///
    /// `marker` is a marker that the active buffer gave and that no reset of
    /// it has passed since: it is not above the first unused memory address.
    pub fn reset_to_marker(&mut self, marker: usize)
        requires
            old(self)@.wf(),
            marker <= old(self)@.active().fill,
        ensures
            final(self)@.wf(),
            final(self)@ == old(self)@.with_active(old(self)@.active().with_fill(marker as int)),
    {
        let index: usize = self.active_index();
        self.buffers[index].reset_to_marker(marker);
        proof {
            assert(self@.buffers =~= old(self)@.buffers.update(index as int, self@.active()));
        }
    }

    /// Returns the index of the first unused memory address of the active buffer.
    pub fn marker(&self) -> (marker: usize)
        ensures
            marker == self@.active().fill,
    {
        self.active_buffer().marker()
    }

    /// Returns the active buffer.
    pub fn active_buffer(&self) -> (buffer: &StackAllocatorCopy)
        ensures
            buffer@ == self@.active(),
    {
        &self.buffers[self.active_index()]
    }

    /// Returns the inactive buffer.
    pub fn inactive_buffer(&self) -> (buffer: &StackAllocatorCopy)
        ensures
            buffer@ == self@.inactive(),
    {
        &self.buffers[1 - self.active_index()]
    }

    /// Swap the buffers. The inactive one becomes the active.
    pub fn swap_buffers(&mut self)
        ensures
            final(self)@ == old(self)@.swapped(),
    {
        self.current = !self.current;
    }
}

} // verus!
