//! The allocators that fill their memory like a stack.

pub mod double_buffered_allocator;
pub mod double_buffered_allocator_copy;
pub mod double_ended_allocator;
pub mod double_ended_allocator_copy;
pub mod stack_allocator;
pub mod stack_allocator_copy;
