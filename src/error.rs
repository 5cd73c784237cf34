use vstd::prelude::*;

verus! {

/// Errors of the library.
#[derive(Debug, Clone, Copy, PartialEq, Eq, Structural)]
pub enum MfError {
    /// Status code reported by the operating system.
    NtStatus(u32),
    /// Memory at the requested address could not be read.
    ReadFailure,
    /// Specified process was not found.
    ProcessNotFound,
    /// Specified module was not found.
    ModuleNotFound,
    /// No threads running in the process.
    NoThreads,
    /// Bytes read do not form a valid UTF-8 string.
    InvalidString,
}

} // verus!
