//! Pattern handling for a Hyperscan-style matching engine: per-pattern flags
//! and their letter encoding, the textual pattern grammar, the columnar input
//! that a batch compilation hands to the engine, and the reading of what the
//! engine reports back.

pub mod compile;
pub mod constants;
pub mod errors;
pub mod flags;
pub mod pattern;
pub mod serialized;
pub mod text;

pub use crate::compile::{CompileBatch, ExpressionInfo, Mode, PlatformInfo};
pub use crate::errors::ErrorKind;
pub use crate::flags::CompileFlags;
pub use crate::pattern::{Pattern, Patterns};
pub use crate::serialized::CBuffer;
