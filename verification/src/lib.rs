//! This library provides:
//!
//! - a **stack-based** allocator,
//!
//! - a **double-buffered** allocator,
//!
//! - a **double-ended** allocator.
//!
//! Its primary purpose is to prevent memory fragmentation: each allocator
//! owns buffers of a fixed size and hands out aligned places in them, bottom
//! up. Memory is taken back all at once, or down to a marker.
//!
//! The allocators keep the books: where each object goes, what a reset takes
//! back, and which objects are then to be dropped, in which order. They never
//! touch the bytes of an object.

pub mod allocation_error;
pub mod memory_chunk;
pub mod stacks;
pub mod utils;

pub use stacks::double_buffered_allocator::DoubleBufferedAllocator;
pub use stacks::double_ended_allocator::DoubleEndedStackAllocator;
pub use stacks::stack_allocator::StackAllocator;
