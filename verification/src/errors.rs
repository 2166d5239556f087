use vstd::prelude::*;

verus! {

/// Everything that can go wrong while patterns are read, compiled or a
/// database is moved to and from bytes.
#[derive(Debug, Clone, PartialEq, Eq)]
pub enum ErrorKind {
    /// A character of a flag string names no flag.
    InvalidFlag(char),
    /// The text in front of the first `:` of a pattern is not an unsigned integer.
    InvalidId,
    /// The engine rejected an expression; `pattern_index` is the position of
    /// the expression in the batch, where the engine gave one.
    CompileError { message: String, pattern_index: Option<usize> },
    /// The requested target platform is not supported.
    PlatformUnsupported,
    /// The engine ran out of memory.
    AllocationFailed,
    /// A serialized database is too short or its header is not valid.
    CorruptHeader,
    /// A serialized database comes from an incompatible engine version.
    VersionMismatch,
    /// A serialized database needs features that this host lacks.
    PlatformMismatch,
    /// The target region is smaller than the database it should take.
    SizeMismatch,
}

} // verus!
