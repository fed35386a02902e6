//! Common error type for usage of different Wasm runtimes.
//!
//! A leaf utility beside the orchestrator: it maps low-level runtime faults
//! to a closed set of variants used for error reporting.

use vstd::prelude::*;

verus! {

/// Errors that can occur when using a Wasm runtime.
#[derive(Debug)]
pub enum RuntimeError {
    /// Attempt to allocate a buffer larger than the 32-bit address space
    /// allows.
    AllocationTooLarge,
    /// The guest allocator returned a negative value instead of a valid
    /// address.
    AllocationFailed,
    /// Attempt to deallocate an address outside the 32-bit address space.
    DeallocateInvalidAddress,
    /// Attempt to load a function not exported from a module; carries the
    /// function's name.
    FunctionNotFound(String),
    /// Attempt to load a function with a name that is used for a different
    /// import in the module; carries that name.
    NotAFunction(String),
    /// Attempt to load a string from a sequence of bytes that does not hold
    /// UTF-8.
    InvalidString,
    /// Attempt to build a guest pointer from an address representation that
    /// does not fit.
    InvalidNumber,
}

/// The fixed description of each runtime error kind.
pub open spec fn runtime_message_spec(e: RuntimeError) -> Seq<char> {
    match e {
        RuntimeError::AllocationTooLarge => "Requested allocation size is too large"@,
        RuntimeError::AllocationFailed => "Memory allocation failed"@,
        RuntimeError::DeallocateInvalidAddress =>
            "Attempt to deallocate an invalid address"@,
        RuntimeError::FunctionNotFound(..) =>
            "Function could not be found in the module's exports"@,
        RuntimeError::NotAFunction(..) => "Export is not a function"@,
        RuntimeError::InvalidString => "Failed to load string from non-UTF-8 bytes"@,
        RuntimeError::InvalidNumber => "Invalid address read"@,
    }
}

impl RuntimeError {
    /// A short, fixed description of the error kind.
    pub fn message(&self) -> (r: &'static str)
        ensures
            r@ == runtime_message_spec(*self),
    {
        match self {
            RuntimeError::AllocationTooLarge => "Requested allocation size is too large",
            RuntimeError::AllocationFailed => "Memory allocation failed",
            RuntimeError::DeallocateInvalidAddress =>
                "Attempt to deallocate an invalid address",
            RuntimeError::FunctionNotFound(..) =>
                "Function could not be found in the module's exports",
            RuntimeError::NotAFunction(..) => "Export is not a function",
            RuntimeError::InvalidString => "Failed to load string from non-UTF-8 bytes",
            RuntimeError::InvalidNumber => "Invalid address read",
        }
    }
}

} // verus!
