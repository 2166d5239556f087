use vstd::prelude::*;

verus! {

/// Matching is performed case-insensitively.
pub const HS_FLAG_CASELESS: u32 = 1;

/// `.` matches every character, newlines included.
pub const HS_FLAG_DOTALL: u32 = 2;

/// `^` and `$` match at newlines in the data.
pub const HS_FLAG_MULTILINE: u32 = 4;

/// At most one match is reported per pattern id.
pub const HS_FLAG_SINGLEMATCH: u32 = 8;

/// Patterns that can match the empty string are allowed.
pub const HS_FLAG_ALLOWEMPTY: u32 = 16;

/// The pattern is a sequence of UTF-8 characters.
pub const HS_FLAG_UTF8: u32 = 32;

/// Character classes use Unicode properties.
pub const HS_FLAG_UCP: u32 = 64;

/// The pattern is compiled in prefiltering mode.
pub const HS_FLAG_PREFILTER: u32 = 128;

/// The leftmost start of match is reported.
pub const HS_FLAG_SOM_LEFTMOST: u32 = 256;

/// The pattern is a logical combination of other patterns.
pub const HS_FLAG_COMBINATION: u32 = 512;

/// Matches of the pattern are not reported.
pub const HS_FLAG_QUIET: u32 = 1024;

/// The bits that have a letter in the textual form of a flag set.
pub const HS_FLAG_LETTERED: u32 = 1663;

/// Block scan database.
pub const HS_MODE_BLOCK: u32 = 1;

/// Streaming database.
pub const HS_MODE_STREAM: u32 = 2;

/// Vectored scanning database.
pub const HS_MODE_VECTORED: u32 = 4;

/// The engine call completed normally.
pub const HS_SUCCESS: i32 = 0;

/// A parameter passed to the engine was invalid.
pub const HS_INVALID: i32 = -1;

/// A memory allocation failed inside the engine.
pub const HS_NOMEM: i32 = -2;

/// The pattern compiler failed.
pub const HS_COMPILER_ERROR: i32 = -4;

/// The database was built by another version of the engine.
pub const HS_DB_VERSION_ERROR: i32 = -5;

/// The database was built for another platform.
pub const HS_DB_PLATFORM_ERROR: i32 = -6;

/// The engine does not support the requested platform.
pub const HS_ARCH_ERROR: i32 = -11;

} // verus!
