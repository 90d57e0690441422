//! The errors that an allocation can end in.

use vstd::prelude::*;
use vstd::string::StringExecFns;

verus! {

/// Why an allocation was refused. Each variant carries a message that says
/// which allocator refused it.
#[derive(Debug)]
pub enum AllocationError {
    /// The chunk that the allocation went to does not have room for it.
    OutOfMemoryError(String),
    /// Every pool of a pool allocator is in use. The stack allocators never give this error.
    OutOfPoolError(String),
}

/// The result of an allocation.
pub type AllocationResult<T> = Result<T, AllocationError>;

impl AllocationError {
    /// The message that the error carries.
    pub open spec fn message(self) -> Seq<char> {
        match self {
            AllocationError::OutOfMemoryError(message) => message@,
            AllocationError::OutOfPoolError(message) => message@,
        }
    }

    /// The name of the variant.
    pub fn description(&self) -> (name: &'static str)
        ensures
            name@ == (match self {
                AllocationError::OutOfMemoryError(_) => "OutOfMemoryError"@,
                AllocationError::OutOfPoolError(_) => "OutOfPoolError"@,
            }),
    {
        match self {
            AllocationError::OutOfMemoryError(_) => "OutOfMemoryError",
            AllocationError::OutOfPoolError(_) => "OutOfPoolError",
        }
    }

    /// The error as a line of text: what kind of error it is, then its message.
    pub fn to_string(&self) -> (text: String)
        ensures
            text@ == (match self {
                AllocationError::OutOfMemoryError(_) => "Out of memory error: "@,
                AllocationError::OutOfPoolError(_) => "Out of pool error: "@,
            }) + self.message(),
    {
        match self {
            AllocationError::OutOfMemoryError(message) => String::from_str(
                "Out of memory error: ",
            ).concat(message.as_str()),
            AllocationError::OutOfPoolError(message) => String::from_str(
                "Out of pool error: ",
            ).concat(message.as_str()),
        }
    }
}

} // verus!
