//! The double-buffered allocator: two stack allocators, of which one is active
//! and takes every allocation and reset, until the two are swapped.

use crate::allocation_error::{AllocationError, AllocationResult};
use crate::memory_chunk::Record;
use crate::stacks::stack_allocator::{Allocation, StackAllocator, StackView};
use crate::utils::{is_aligned, type_description_of};
use vstd::layout::align_of;
use vstd::prelude::*;

verus! {

/// The view of a double-buffered allocator: its two buffers, and which of
/// them is active.
pub ghost struct DoubleBufferedView {
    /// The two buffers.
    pub buffers: Seq<StackView>,
    /// `false` while the first buffer is active, `true` while the second is.
    pub current: bool,
}

impl DoubleBufferedView {
    /// There are two buffers, each a well-formed stack allocator.
    pub open spec fn wf(self) -> bool {
        &&& self.buffers.len() == 2
        &&& self.buffers[0].wf()
        &&& self.buffers[1].wf()
    }

    /// Index of the active buffer.
    pub open spec fn active_index(self) -> int {
        if self.current {
            1
        } else {
            0
        }
    }

    /// The active buffer.
    pub open spec fn active(self) -> StackView {
        self.buffers[self.active_index()]
    }

    /// The inactive buffer.
    pub open spec fn inactive(self) -> StackView {
        self.buffers[1 - self.active_index()]
    }

    /// The allocator with `stack` in the place of the active buffer.
    pub open spec fn with_active(self, stack: StackView) -> DoubleBufferedView {
        DoubleBufferedView { buffers: self.buffers.update(self.active_index(), stack), ..self }
    }

    /// The allocator with the other buffer active.
    pub open spec fn swapped(self) -> DoubleBufferedView {
        DoubleBufferedView { current: !self.current, ..self }
    }

    /// Swapping twice gives back the allocator as it was: the same buffer is
    /// active, and both buffers hold what they held.
    pub proof fn lemma_swap_is_an_involution(self)
        ensures
            self.swapped().swapped() == self,
            self.swapped().active() == self.inactive(),
            self.swapped().inactive() == self.active(),
            self.swapped().buffers == self.buffers,
    {
    }
}

/// A double-buffered allocator.
///
/// This allocator is a wrapper around two `StackAllocator`s.
///
/// It works like a `StackAllocator`, and allows you to swap the buffers.
/// Useful if you want to use data created at a frame n, and use it at frame n + 1:
/// swap the buffers at the start of the frame and reset the newly active one;
/// what was allocated during the frame before stays in the inactive buffer
/// until the next swap and reset.
pub struct DoubleBufferedAllocator {
    buffers: [StackAllocator; 2],
    current: bool,
}

impl View for DoubleBufferedAllocator {
    type V = DoubleBufferedView;

    closed spec fn view(&self) -> DoubleBufferedView {
        DoubleBufferedView {
            buffers: seq![self.buffers[0]@, self.buffers[1]@],
            current: self.current,
        }
    }
}

impl DoubleBufferedAllocator {
    /// Creates a DoubleBufferedAllocator with the given capacities, in bytes.
    ///
    /// Each of the two buffers gets `capacity` bytes for droppable data and
    /// `capacity_copy` bytes for copyable data. The first buffer is active.
    pub fn with_capacity(capacity: usize, capacity_copy: usize) -> (allocator: Self)
        ensures
            allocator@.wf(),
            !allocator@.current,
            forall|i: int|
                0 <= i < 2 ==> {
                    &&& (#[trigger] allocator@.buffers[i]).capacity() == capacity
                    &&& allocator@.buffers[i].capacity_copy() == capacity_copy
                    &&& allocator@.buffers[i].marker() == 0
                    &&& allocator@.buffers[i].marker_copy() == 0
                    &&& allocator@.buffers[i].records() == Seq::<Record>::empty()
                },
    {
        DoubleBufferedAllocator {
            buffers: [
                StackAllocator::with_capacity(capacity, capacity_copy),
                StackAllocator::with_capacity(capacity, capacity_copy),
            ],
            current: false,
        }
    }

    /// Index of the active buffer.
    fn active_index(&self) -> (index: usize)
        ensures
            index == self@.active_index(),
    {
        if self.current {
            1
        } else {
            0
        }
    }

    /// Returns the active buffer.
    pub fn active_buffer(&self) -> (buffer: &StackAllocator)
        ensures
            buffer@ == self@.active(),
    {
        &self.buffers[self.active_index()]
    }

    /// Returns the inactive buffer.
    pub fn inactive_buffer(&self) -> (buffer: &StackAllocator)
        ensures
            buffer@ == self@.inactive(),
    {
        &self.buffers[1 - self.active_index()]
    }

    /// Allocates data in the active buffer, returning the data together with its offset.
    ///
    /// # Error
    /// This function will return an error if the allocation exceeds the maximum
    /// storage capacity of the active buffer.
    pub fn allocate<T, F>(&mut self, op: F) -> (r: AllocationResult<Allocation<T>>) where
        F: FnOnce() -> T,

        requires
            old(self)@.wf(),
            op.requires(()),
        ensures
            final(self)@.wf(),
            final(self)@ == old(self)@.with_active(final(self)@.active()),
            old(self)@.active().alloc_non_copy_result(
                final(self)@.active(),
                type_description_of::<T>(),
                r,
            ) || old(self)@.active().alloc_copy_result(
                final(self)@.active(),
                type_description_of::<T>(),
                r,
            ),
            r matches Ok(allocation) ==> {
                &&& op.ensures((), allocation.value)
                &&& is_aligned(allocation.offset as int, align_of::<T>() as int)
            },
    {
        let index: usize = self.active_index();
        let r = self.buffers[index].allocate(op);
        proof {
            assert(self@.buffers =~= old(self)@.buffers.update(index as int, self@.active()));
        }
        r
    }

    /// Allocates data in the active buffer like
    /// [`DoubleBufferedAllocator::allocate`], for data that the caller goes on to change.
    ///
    /// # Error
    /// This function will return an error if the allocation exceeds the maximum
    /// storage capacity of the active buffer.
    pub fn alloc_mut<T, F>(&mut self, op: F) -> (r: AllocationResult<Allocation<T>>) where
        F: FnOnce() -> T,

        requires
            old(self)@.wf(),
            op.requires(()),
        ensures
            final(self)@.wf(),
            final(self)@ == old(self)@.with_active(final(self)@.active()),
            old(self)@.active().alloc_non_copy_result(
                final(self)@.active(),
                type_description_of::<T>(),
                r,
            ) || old(self)@.active().alloc_copy_result(
                final(self)@.active(),
                type_description_of::<T>(),
                r,
            ),
            r matches Ok(allocation) ==> {
                &&& op.ensures((), allocation.value)
                &&& is_aligned(allocation.offset as int, align_of::<T>() as int)
            },
    {
        let index: usize = self.active_index();
        let r = self.buffers[index].alloc_mut(op);
        proof {
            assert(self@.buffers =~= old(self)@.buffers.update(index as int, self@.active()));
        }
        r
    }

    /// Allocates data in the active buffer, returning the data together with its offset.
    ///
    /// # Warning
    /// This function doesn't return an error if the allocated data doesn't fit
    /// in the active buffer's remaining capacity. It doesn't perform any check.
    pub fn alloc_unchecked<T, F>(&mut self, op: F) -> (allocation: Allocation<T>) where
        F: FnOnce() -> T,

        requires
            old(self)@.wf(),
            old(self)@.active().can_alloc(type_description_of::<T>()),
            old(self)@.active().fits_copy(
                type_description_of::<T>().size as int,
                type_description_of::<T>().alignment as int,
            ),
            op.requires(()),
        ensures
            final(self)@.wf(),
            final(self)@ == old(self)@.with_active(final(self)@.active()),
            old(self)@.active().alloc_non_copy_result(
                final(self)@.active(),
                type_description_of::<T>(),
                Ok::<Allocation<T>, AllocationError>(allocation),
            ) || old(self)@.active().alloc_copy_result(
                final(self)@.active(),
                type_description_of::<T>(),
                Ok::<Allocation<T>, AllocationError>(allocation),
            ),
            op.ensures((), allocation.value),
            is_aligned(allocation.offset as int, align_of::<T>() as int),
    {
        let index: usize = self.active_index();
        let allocation = self.buffers[index].alloc_unchecked(op);
        proof {
            assert(self@.buffers =~= old(self)@.buffers.update(index as int, self@.active()));
        }
        allocation
    }

    /// Allocates data in the active buffer like
    /// [`DoubleBufferedAllocator::alloc_unchecked`], for data that the caller
    /// goes on to change.
    ///
    /// # Warning
    /// This function doesn't return an error if the allocated data doesn't fit
    /// in the active buffer's remaining capacity. It doesn't perform any check.
    pub fn alloc_mut_unchecked<T, F>(&mut self, op: F) -> (allocation: Allocation<T>) where
        F: FnOnce() -> T,

        requires
            old(self)@.wf(),
            old(self)@.active().can_alloc(type_description_of::<T>()),
            old(self)@.active().fits_copy(
                type_description_of::<T>().size as int,
                type_description_of::<T>().alignment as int,
            ),
            op.requires(()),
        ensures
            final(self)@.wf(),
            final(self)@ == old(self)@.with_active(final(self)@.active()),
            old(self)@.active().alloc_non_copy_result(
                final(self)@.active(),
                type_description_of::<T>(),
                Ok::<Allocation<T>, AllocationError>(allocation),
            ) || old(self)@.active().alloc_copy_result(
                final(self)@.active(),
                type_description_of::<T>(),
                Ok::<Allocation<T>, AllocationError>(allocation),
            ),
            op.ensures((), allocation.value),
            is_aligned(allocation.offset as int, align_of::<T>() as int),
    {
        let index: usize = self.active_index();
        let allocation = self.buffers[index].alloc_mut_unchecked(op);
        proof {
            assert(self@.buffers =~= old(self)@.buffers.update(index as int, self@.active()));
        }
        allocation
    }

    /// Reset the memory storage of the active buffer holding droppable data,
    /// and returns the records of all the data residing inside it, first
    /// allocated first: the objects to drop, in the order in which to drop them.
    pub fn reset(&mut self) -> (destroyed: Vec<Record>)
        requires
            old(self)@.wf(),
        ensures
            final(self)@.wf(),
            final(self)@ == old(self)@.with_active(old(self)@.active().reset_to(0)),
            final(self)@.active().marker() == 0,
            destroyed@ == old(self)@.active().records(),
    {
        let index: usize = self.active_index();
        let destroyed: Vec<Record> = self.buffers[index].reset();
        proof {
            assert(self@.buffers =~= old(self)@.buffers.update(index as int, self@.active()));
        }
        destroyed
    }

    /// Reset the memory storage of the active buffer holding copyable data.
    pub fn reset_copy(&mut self)
        requires
            old(self)@.wf(),
        ensures
            final(self)@.wf(),
            final(self)@ == old(self)@.with_active(old(self)@.active().reset_copy_to(0)),
            final(self)@.active().marker_copy() == 0,
    {
        let index: usize = self.active_index();
        self.buffers[index].reset_copy();
        proof {
            assert(self@.buffers =~= old(self)@.buffers.update(index as int, self@.active()));
        }
    }

    /// Reset partially the memory storage of the active buffer holding
    /// droppable data, and returns the records of the data residing between
    /// the marker and the first unused memory address, first allocated first:
    /// the objects to drop, in the order in which to drop them.
    ///
    /// `marker` is a marker that the active buffer gave and that no reset of
    /// it has passed since.
    pub fn reset_to_marker(&mut self, marker: usize) -> (destroyed: Vec<Record>)
        requires
            old(self)@.wf(),
            old(self)@.active().is_marker(marker as int),
        ensures
            final(self)@.wf(),
            final(self)@ == old(self)@.with_active(old(self)@.active().reset_to(marker as int)),
            final(self)@.active().marker() == marker,
            destroyed@ == old(self)@.active().records_from(marker as int),
            old(self)@.active().records() == final(self)@.active().records() + destroyed@,
    {
        let index: usize = self.active_index();
        let destroyed: Vec<Record> = self.buffers[index].reset_to_marker(marker);
        proof {
            assert(self@.buffers =~= old(self)@.buffers.update(index as int, self@.active()));
        }
        destroyed
    }

    /// Reset partially the memory storage of the active buffer holding copyable data.
    ///
    /// `marker` is a marker that the active buffer gave and that no reset of
    /// it has passed since: it is not above the first unused memory address.
    pub fn reset_to_marker_copy(&mut self, marker: usize)
        requires
            old(self)@.wf(),
            marker <= old(self)@.active().marker_copy(),
        ensures
            final(self)@.wf(),
            final(self)@ == old(self)@.with_active(
                old(self)@.active().reset_copy_to(marker as int),
            ),
            final(self)@.active().marker_copy() == marker,
    {
        let index: usize = self.active_index();
        self.buffers[index].reset_to_marker_copy(marker);
        proof {
            assert(self@.buffers =~= old(self)@.buffers.update(index as int, self@.active()));
        }
    }

    /// Returns the index of the first unused memory address of the memory
    /// storage of the active buffer holding droppable data.
    pub fn marker(&self) -> (marker: usize)
        ensures
            marker == self@.active().marker(),
    {
        self.active_buffer().marker()
    }

    /// Returns the index of the first unused memory address of the memory
    /// storage of the active buffer holding copyable data.
    pub fn marker_copy(&self) -> (marker: usize)
        ensures
            marker == self@.active().marker_copy(),
    {
        self.active_buffer().marker_copy()
    }

    /// Tells whether the active buffer can be reset to `marker`.
    pub fn is_marker(&self, marker: usize) -> (b: bool)
        requires
            self@.wf(),
        ensures
            b == self@.active().is_marker(marker as int),
    {
        self.active_buffer().is_marker(marker)
    }

    /// Swap the buffers. The inactive one becomes the active.
    ///
    /// Nothing is dropped: the buffer that is inactive from now on keeps its
    /// data until it is active again and reset.
    pub fn swap_buffers(&mut self)
        ensures
            final(self)@ == old(self)@.swapped(),
    {
        self.current = !self.current;
    }

    /// Returns the maximum capacity the memory storage of the active buffer
    /// holding droppable data can hold.
    pub fn capacity(&self) -> (capacity: usize)
        ensures
            capacity == self@.active().capacity(),
    {
        self.active_buffer().capacity()
    }

    /// Returns the maximum capacity the memory storage of the active buffer
    /// holding copyable data can hold.
    pub fn capacity_copy(&self) -> (capacity: usize)
        ensures
            capacity == self@.active().capacity_copy(),
    {
        self.active_buffer().capacity_copy()
    }

    /// Returns the address of the start of the memory storage of the active
    /// buffer holding droppable data.
    pub fn storage_as_ptr(&self) -> (address: usize)
        ensures
            address == self@.active().storage.address,
    {
        self.active_buffer().storage_as_ptr()
    }

    /// Returns the address of the start of the memory storage of the active
    /// buffer holding copyable data.
    pub fn storage_copy_as_ptr(&self) -> (address: usize)
        ensures
            address == self@.active().storage_copy.address,
    {
        self.active_buffer().storage_copy_as_ptr()
    }
}

} // verus!
