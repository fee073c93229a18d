use vstd::prelude::*;

verus! {

/// What can go wrong while locating the executable image or relating an
/// address to it.
#[derive(Debug, PartialEq, Eq)]
pub enum Error {
    /// Information about the current process could not be obtained.
    ProcessAccessError(String),
    /// The path of the running executable could not be resolved.
    ExecutablePathError(String),
    /// The memory-map listing could not be read or parsed.
    MemoryMapError(String),
    /// The listing was readable but names no mapping of the executable.
    NoMemoryMapping,
    /// A call into the operating system failed or returned unusable data.
    PlatformError(String),
    /// An absolute address lies below the load bias it was to be reduced by.
    NormalizationUnderflow { absolute: u64, offset: u64 },
}

} // verus!
