//! The double-ended allocator: two stack allocators side by side, one for
//! resident data and one for temporary data, each reset on its own.

use crate::allocation_error::AllocationResult;
use crate::memory_chunk::Record;
use crate::stacks::stack_allocator::{Allocation, StackAllocator, StackView};
use crate::utils::{is_aligned, type_description_of};
use vstd::layout::align_of;
use vstd::prelude::*;

verus! {

/// The view of a double-ended allocator: its two stacks.
pub ghost struct DoubleEndedView {
    /// The stack for resident data.
    pub resident: StackView,
    /// The stack for temporary data.
    pub temp: StackView,
}

impl DoubleEndedView {
    /// Both stacks are well-formed stack allocators.
    pub open spec fn wf(self) -> bool {
        &&& self.resident.wf()
        &&& self.temp.wf()
    }
}

/// A double-ended allocator.
///
/// It manages two `StackAllocator`s: one for resident data, one for temporary
/// data. Useful when resident data is built from temporary data and outlives
/// it: allocate the temporary data in one stack and the resident data in the
/// other, then reset the stack of temporary data. Neither stack is touched by
/// what happens to the other.
pub struct DoubleEndedStackAllocator {
    stack_resident: StackAllocator,
    stack_temp: StackAllocator,
}

impl View for DoubleEndedStackAllocator {
    type V = DoubleEndedView;

    closed spec fn view(&self) -> DoubleEndedView {
        DoubleEndedView { resident: self.stack_resident@, temp: self.stack_temp@ }
    }
}

impl DoubleEndedStackAllocator {
    /// Creates a DoubleEndedStackAllocator with the given capacities, in bytes.
    ///
    /// Each capacity is split in two halves, one for the resident data and one
    /// for the temporary data. The first capacity is for droppable data, the
    /// second for copyable data.
    pub fn with_capacity(capacity: usize, capacity_copy: usize) -> (allocator: Self)
        ensures
            allocator@.wf(),
            allocator@.resident.capacity() == capacity / 2,
            allocator@.resident.capacity_copy() == capacity_copy / 2,
            allocator@.temp.capacity() == capacity / 2,
            allocator@.temp.capacity_copy() == capacity_copy / 2,
            allocator@.resident.marker() == 0,
            allocator@.resident.marker_copy() == 0,
            allocator@.temp.marker() == 0,
            allocator@.temp.marker_copy() == 0,
            allocator@.resident.records() == Seq::<Record>::empty(),
            allocator@.temp.records() == Seq::<Record>::empty(),
    {
        DoubleEndedStackAllocator {
            stack_resident: StackAllocator::with_capacity(capacity / 2, capacity_copy / 2),
            stack_temp: StackAllocator::with_capacity(capacity / 2, capacity_copy / 2),
        }
    }

    /// Returns the stack holding resident data.
    pub fn stack_resident(&self) -> (stack: &StackAllocator)
        ensures
            stack@ == self@.resident,
    {
        &self.stack_resident
    }

    /// Returns the stack holding temporary data.
    pub fn stack_temp(&self) -> (stack: &StackAllocator)
        ensures
            stack@ == self@.temp,
    {
        &self.stack_temp
    }

    /// Allocates resident data, returning the data together with its offset.
    ///
    /// If the allocated data needs its destructor to run, it will be placed in
    /// the memory storage holding droppable data. Otherwise, it will be placed
    /// in the other memory storage.
    ///
    /// # Error
    /// This function will return an error if the allocation exceeds the maximum
    /// storage capacity of the stack holding resident data.
    pub fn alloc_resident<T, F>(&mut self, op: F) -> (r: AllocationResult<Allocation<T>>) where
        F: FnOnce() -> T,

        requires
            old(self)@.wf(),
            op.requires(()),
        ensures
            final(self)@.wf(),
            final(self)@.temp == old(self)@.temp,
            old(self)@.resident.alloc_non_copy_result(
                final(self)@.resident,
                type_description_of::<T>(),
                r,
            ) || old(self)@.resident.alloc_copy_result(
                final(self)@.resident,
                type_description_of::<T>(),
                r,
            ),
            r matches Ok(allocation) ==> {
                &&& op.ensures((), allocation.value)
                &&& is_aligned(allocation.offset as int, align_of::<T>() as int)
            },
    {
        self.stack_resident.allocate(op)
    }

    /// Allocates resident data like [`DoubleEndedStackAllocator::alloc_resident`],
    /// for data that the caller goes on to change.
    ///
    /// # Error
    /// This function will return an error if the allocation exceeds the maximum
    /// storage capacity of the stack holding resident data.
    pub fn alloc_mut_resident<T, F>(&mut self, op: F) -> (r: AllocationResult<Allocation<T>>) where
        F: FnOnce() -> T,

        requires
            old(self)@.wf(),
            op.requires(()),
        ensures
            final(self)@.wf(),
            final(self)@.temp == old(self)@.temp,
            old(self)@.resident.alloc_non_copy_result(
                final(self)@.resident,
                type_description_of::<T>(),
                r,
            ) || old(self)@.resident.alloc_copy_result(
                final(self)@.resident,
                type_description_of::<T>(),
                r,
            ),
            r matches Ok(allocation) ==> {
                &&& op.ensures((), allocation.value)
                &&& is_aligned(allocation.offset as int, align_of::<T>() as int)
            },
    {
        self.stack_resident.alloc_mut(op)
    }

    /// Returns the index of the first unused memory address of the memory
    /// storage holding resident droppable data.
    pub fn marker_resident(&self) -> (marker: usize)
        ensures
            marker == self@.resident.marker(),
    {
        self.stack_resident.marker()
    }

    /// Returns the index of the first unused memory address of the memory
    /// storage holding resident copyable data.
    pub fn marker_resident_copy(&self) -> (marker: usize)
        ensures
            marker == self@.resident.marker_copy(),
    {
        self.stack_resident.marker_copy()
    }

    /// Tells whether the stack holding resident data can be reset to `marker`.
    pub fn is_marker_resident(&self, marker: usize) -> (b: bool)
        requires
            self@.wf(),
        ensures
            b == self@.resident.is_marker(marker as int),
    {
        self.stack_resident.is_marker(marker)
    }

    /// Reset the memory storage holding resident droppable data, and returns the
    /// records of all the data residing inside it, first allocated first: the
    /// objects to drop, in the order in which to drop them.
    pub fn reset_resident(&mut self) -> (destroyed: Vec<Record>)
        requires
            old(self)@.wf(),
        ensures
            final(self)@.wf(),
            final(self)@.temp == old(self)@.temp,
            final(self)@.resident == old(self)@.resident.reset_to(0),
            final(self)@.resident.marker() == 0,
            destroyed@ == old(self)@.resident.records(),
    {
        self.stack_resident.reset()
    }

    /// Reset the memory storage holding resident copyable data.
    pub fn reset_resident_copy(&mut self)
        requires
            old(self)@.wf(),
        ensures
            final(self)@.wf(),
            final(self)@.temp == old(self)@.temp,
            final(self)@.resident == old(self)@.resident.reset_copy_to(0),
            final(self)@.resident.marker_copy() == 0,
    {
        self.stack_resident.reset_copy()
    }

    /// Reset partially the memory storage holding resident droppable data, and
    /// returns the records of the data residing between the marker and the
    /// first unused memory address, first allocated first: the objects to
    /// drop, in the order in which to drop them.
    ///
    /// `marker` is a marker that the stack holding resident data gave and that
    /// no reset of it has passed since.
    pub fn reset_to_marker_resident(&mut self, marker: usize) -> (destroyed: Vec<Record>)
        requires
            old(self)@.wf(),
            old(self)@.resident.is_marker(marker as int),
        ensures
            final(self)@.wf(),
            final(self)@.temp == old(self)@.temp,
            final(self)@.resident == old(self)@.resident.reset_to(marker as int),
            final(self)@.resident.marker() == marker,
            destroyed@ == old(self)@.resident.records_from(marker as int),
            old(self)@.resident.records() == final(self)@.resident.records() + destroyed@,
    {
        self.stack_resident.reset_to_marker(marker)
    }

    /// Reset partially the memory storage holding resident copyable data.
    ///
    /// `marker` is a marker that the stack holding resident data gave and that
    /// no reset of it has passed since: it is not above the first unused
    /// memory address.
    pub fn reset_to_marker_resident_copy(&mut self, marker: usize)
        requires
            old(self)@.wf(),
            marker <= old(self)@.resident.marker_copy(),
        ensures
            final(self)@.wf(),
            final(self)@.temp == old(self)@.temp,
            final(self)@.resident == old(self)@.resident.reset_copy_to(marker as int),
            final(self)@.resident.marker_copy() == marker,
    {
        self.stack_resident.reset_to_marker_copy(marker)
    }

    /// Allocates temporary data, returning the data together with its offset.
    ///
    /// If the allocated data needs its destructor to run, it will be placed in
    /// the memory storage holding droppable data. Otherwise, it will be placed
    /// in the other memory storage.
    ///
    /// # Error
    /// This function will return an error if the allocation exceeds the maximum
    /// storage capacity of the stack holding temporary data.
    pub fn alloc_temp<T, F>(&mut self, op: F) -> (r: AllocationResult<Allocation<T>>) where
        F: FnOnce() -> T,

        requires
            old(self)@.wf(),
            op.requires(()),
        ensures
            final(self)@.wf(),
            final(self)@.resident == old(self)@.resident,
            old(self)@.temp.alloc_non_copy_result(
                final(self)@.temp,
                type_description_of::<T>(),
                r,
            ) || old(self)@.temp.alloc_copy_result(
                final(self)@.temp,
                type_description_of::<T>(),
                r,
            ),
            r matches Ok(allocation) ==> {
                &&& op.ensures((), allocation.value)
                &&& is_aligned(allocation.offset as int, align_of::<T>() as int)
            },
    {
        self.stack_temp.allocate(op)
    }

    /// Allocates temporary data like [`DoubleEndedStackAllocator::alloc_temp`],
    /// for data that the caller goes on to change.
    ///
    /// # Error
    /// This function will return an error if the allocation exceeds the maximum
    /// storage capacity of the stack holding temporary data.
    pub fn alloc_mut_temp<T, F>(&mut self, op: F) -> (r: AllocationResult<Allocation<T>>) where
        F: FnOnce() -> T,

        requires
            old(self)@.wf(),
            op.requires(()),
        ensures
            final(self)@.wf(),
            final(self)@.resident == old(self)@.resident,
            old(self)@.temp.alloc_non_copy_result(
                final(self)@.temp,
                type_description_of::<T>(),
                r,
            ) || old(self)@.temp.alloc_copy_result(
                final(self)@.temp,
                type_description_of::<T>(),
                r,
            ),
            r matches Ok(allocation) ==> {
                &&& op.ensures((), allocation.value)
                &&& is_aligned(allocation.offset as int, align_of::<T>() as int)
            },
    {
        self.stack_temp.alloc_mut(op)
    }

    /// Returns the index of the first unused memory address of the memory
    /// storage holding temporary droppable data.
    pub fn marker_temp(&self) -> (marker: usize)
        ensures
            marker == self@.temp.marker(),
    {
        self.stack_temp.marker()
    }

    /// Returns the index of the first unused memory address of the memory
    /// storage holding temporary copyable data.
    pub fn marker_temp_copy(&self) -> (marker: usize)
        ensures
            marker == self@.temp.marker_copy(),
    {
        self.stack_temp.marker_copy()
    }

    /// Tells whether the stack holding temporary data can be reset to `marker`.
    pub fn is_marker_temp(&self, marker: usize) -> (b: bool)
        requires
            self@.wf(),
        ensures
            b == self@.temp.is_marker(marker as int),
    {
        self.stack_temp.is_marker(marker)
    }

    /// Reset the memory storage holding temporary droppable data, and returns the
    /// records of all the data residing inside it, first allocated first: the
    /// objects to drop, in the order in which to drop them.
    pub fn reset_temp(&mut self) -> (destroyed: Vec<Record>)
        requires
            old(self)@.wf(),
        ensures
            final(self)@.wf(),
            final(self)@.resident == old(self)@.resident,
            final(self)@.temp == old(self)@.temp.reset_to(0),
            final(self)@.temp.marker() == 0,
            destroyed@ == old(self)@.temp.records(),
    {
        self.stack_temp.reset()
    }

    /// Reset the memory storage holding temporary copyable data.
    pub fn reset_temp_copy(&mut self)
        requires
            old(self)@.wf(),
        ensures
            final(self)@.wf(),
            final(self)@.resident == old(self)@.resident,
            final(self)@.temp == old(self)@.temp.reset_copy_to(0),
            final(self)@.temp.marker_copy() == 0,
    {
        self.stack_temp.reset_copy()
    }

    /// Reset partially the memory storage holding temporary droppable data, and
    /// returns the records of the data residing between the marker and the
    /// first unused memory address, first allocated first: the objects to
    /// drop, in the order in which to drop them.
    ///
    /// `marker` is a marker that the stack holding temporary data gave and that
    /// no reset of it has passed since.
    pub fn reset_to_marker_temp(&mut self, marker: usize) -> (destroyed: Vec<Record>)
        requires
            old(self)@.wf(),
            old(self)@.temp.is_marker(marker as int),
        ensures
            final(self)@.wf(),
            final(self)@.resident == old(self)@.resident,
            final(self)@.temp == old(self)@.temp.reset_to(marker as int),
            final(self)@.temp.marker() == marker,
            destroyed@ == old(self)@.temp.records_from(marker as int),
            old(self)@.temp.records() == final(self)@.temp.records() + destroyed@,
    {
        self.stack_temp.reset_to_marker(marker)
    }

    /// Reset partially the memory storage holding temporary copyable data.
    ///
    /// `marker` is a marker that the stack holding temporary data gave and that
    /// no reset of it has passed since: it is not above the first unused
    /// memory address.
    pub fn reset_to_marker_temp_copy(&mut self, marker: usize)
        requires
            old(self)@.wf(),
            marker <= old(self)@.temp.marker_copy(),
        ensures
            final(self)@.wf(),
            final(self)@.resident == old(self)@.resident,
            final(self)@.temp == old(self)@.temp.reset_copy_to(marker as int),
            final(self)@.temp.marker_copy() == marker,
    {
        self.stack_temp.reset_to_marker_copy(marker)
    }
}

} // verus!
