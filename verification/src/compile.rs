use vstd::prelude::*;
use vstd::string::*;
use vstd::utf8::encode_utf8;
use crate::constants::{
    HS_ARCH_ERROR, HS_COMPILER_ERROR, HS_MODE_BLOCK, HS_MODE_STREAM, HS_MODE_VECTORED, HS_NOMEM,
    HS_SUCCESS,
};
use crate::errors::ErrorKind;
use crate::pattern::Pattern;

verus! {

/// The scanning discipline that a database is compiled for.
#[derive(Debug, Copy, Clone, PartialEq, Eq, Structural)]
pub enum Mode {
    Block,
    Streaming,
    Vectored,
}

impl Mode {
    /// The number by which the engine knows the mode.
    pub open spec fn spec_id(&self) -> u32 {
        match self {
            Mode::Block => HS_MODE_BLOCK,
            Mode::Streaming => HS_MODE_STREAM,
            Mode::Vectored => HS_MODE_VECTORED,
        }
    }

    /// The number by which the engine knows the mode.
    #[verifier::when_used_as_spec(spec_id)]
    pub fn id(&self) -> (r: u32)
        ensures
            r == self.spec_id(),
    {
        match self {
            Mode::Block => HS_MODE_BLOCK,
            Mode::Streaming => HS_MODE_STREAM,
            Mode::Vectored => HS_MODE_VECTORED,
        }
    }
}

/// The target platform of a compilation: what to tune for and which CPU
/// features the database may use.
#[derive(Debug, Copy, Clone, PartialEq, Eq, Structural)]
pub struct PlatformInfo {
    pub tune: u32,
    pub cpu_features: u64,
}

impl PlatformInfo {
    /// A platform from its tuning and its CPU feature bits.
    pub fn new(tune: u32, cpu_features: u64) -> (r: PlatformInfo)
        ensures
            r.tune == tune,
            r.cpu_features == cpu_features,
    {
        PlatformInfo { tune, cpu_features }
    }
}

/// What the engine's analysis says of one expression.
#[derive(Debug, Copy, Clone, PartialEq, Eq, Structural)]
pub struct ExpressionInfo {
    /// The minimum length in bytes of a match for the pattern.
    pub min_width: usize,
    /// The maximum length in bytes of a match for the pattern.
    pub max_width: usize,
    /// Whether this expression can produce matches that are not returned in order.
    pub unordered_matches: bool,
    /// Whether this expression can produce matches at end of data.
    pub matches_at_eod: bool,
    /// Whether this expression can only produce matches at end of data.
    pub matches_only_at_eod: bool,
}

impl ExpressionInfo {
    /// The analysis as the engine hands it out, widths as 32-bit numbers and
    /// each property as a byte that is zero for "no".
    pub fn from_raw(
        min_width: u32,
        max_width: u32,
        unordered_matches: i8,
        matches_at_eod: i8,
        matches_only_at_eod: i8,
    ) -> (r: ExpressionInfo)
        ensures
            r.min_width == min_width,
            r.max_width == max_width,
            r.unordered_matches == (unordered_matches != 0),
            r.matches_at_eod == (matches_at_eod != 0),
            r.matches_only_at_eod == (matches_only_at_eod != 0),
    {
        ExpressionInfo {
            min_width: min_width as usize,
            max_width: max_width as usize,
            unordered_matches: unordered_matches != 0,
            matches_at_eod: matches_at_eod != 0,
            matches_only_at_eod: matches_only_at_eod != 0,
        }
    }
}

/// An expression as the engine takes it: its UTF-8 bytes and a closing zero.
pub open spec fn c_string(expression: Seq<char>) -> Seq<u8> {
    encode_utf8(expression).push(0u8)
}

/// Whether the bytes of an expression hold a zero, which would end it early.
pub open spec fn has_nul(expression: Seq<char>) -> bool {
    encode_utf8(expression).contains(0u8)
}

/// Whether `e` is the error for a zero byte in the expression at `index`.
pub open spec fn is_nul_error(e: ErrorKind, index: Option<usize>) -> bool {
    &&& e matches ErrorKind::CompileError { message, pattern_index }
    &&& message@ == "expression contains a NUL byte"@
    &&& pattern_index == index
}

/// The bytes of `expression` for the engine, or the error that names the
/// position `index` where the expression holds a zero byte.
pub fn c_expression(expression: &str, index: Option<usize>) -> (r: Result<Vec<u8>, ErrorKind>)
    ensures
        match r {
            Ok(bytes) => !has_nul(expression@) && bytes@ == c_string(expression@),
            Err(e) => has_nul(expression@) && is_nul_error(e, index),
        },
{
    let mut bytes = expression.as_bytes_vec();
    let n: usize = bytes.len();
    let mut i: usize = 0;
    while i < n
        invariant
            n == bytes@.len(),
            i <= n,
            bytes@ == encode_utf8(expression@),
            forall|j: int| 0 <= j < i ==> bytes@[j] != 0u8,
        decreases n - i,
    {
        if bytes[i] == 0 {
            assert(bytes@.contains(0u8));
            return Err(
                ErrorKind::CompileError {
                    message: String::from_str("expression contains a NUL byte"),
                    pattern_index: index,
                },
            );
        }
        i += 1;
    }
    assert(!bytes@.contains(0u8));
    bytes.push(0);
    Ok(bytes)
}

/// The input of a batch compilation as three columns of equal length: for
/// each pattern its expression bytes, its flags and its id.
#[derive(Debug, Clone)]
pub struct CompileBatch {
    pub expressions: Vec<Vec<u8>>,
    pub flags: Vec<u32>,
    pub ids: Vec<u32>,
}

impl CompileBatch {
    /// Whether row `i` of the columns is the pattern `p`.
    pub open spec fn row_is(&self, i: int, p: Pattern) -> bool {
        &&& self.expressions@[i]@ == c_string(p.expression@)
        &&& self.flags@[i] == p.flags.0
        &&& self.ids@[i] == p.id as u32
    }

    /// Whether the columns hold exactly the given patterns, in their order.
    pub open spec fn holds(&self, patterns: Seq<Pattern>) -> bool {
        &&& self.expressions@.len() == patterns.len()
        &&& self.flags@.len() == patterns.len()
        &&& self.ids@.len() == patterns.len()
        &&& forall|i: int| 0 <= i < patterns.len() ==> self.row_is(i, #[trigger] patterns[i])
    }

    /// The number of patterns in the batch.
    pub fn len(&self) -> (r: usize)
        ensures
            r == self.flags@.len(),
    {
        self.flags.len()
    }
}

/// Whether `r` is the layout of `patterns`: the columns that hold them all
/// where no expression holds a zero byte, else the error that names the
/// first pattern whose expression holds one.
pub open spec fn is_batch_of(r: Result<CompileBatch, ErrorKind>, patterns: Seq<Pattern>) -> bool {
    match r {
        Ok(batch) => {
            &&& batch.holds(patterns)
            &&& forall|i: int|
                0 <= i < patterns.len() ==> !has_nul((#[trigger] patterns[i]).expression@)
        },
        Err(e) => exists|i: int|
            {
                &&& 0 <= i < patterns.len()
                &&& has_nul((#[trigger] patterns[i]).expression@)
                &&& is_nul_error(e, Some(i as usize))
                &&& forall|j: int| 0 <= j < i ==> !has_nul((#[trigger] patterns[j]).expression@)
            },
    }
}

/// Lays the patterns out in columns for the engine. The first pattern whose
/// expression holds a zero byte stops the work and is named in the error.
/// An id wider than 32 bits is cut to its low 32 bits.
pub fn build_batch(patterns: &Vec<Pattern>) -> (r: Result<CompileBatch, ErrorKind>)
    ensures
        is_batch_of(r, patterns@),
{
    let n: usize = patterns.len();
    let mut batch = CompileBatch { expressions: Vec::new(), flags: Vec::new(), ids: Vec::new() };
    let mut i: usize = 0;
    while i < n
        invariant
            n == patterns@.len(),
            i <= n,
            batch.holds(patterns@.take(i as int)),
            forall|j: int| 0 <= j < i ==> !has_nul((#[trigger] patterns@[j]).expression@),
        decreases n - i,
    {
        let pattern = &patterns[i];
        match c_expression(pattern.expression.as_str(), Some(i)) {
            Ok(bytes) => {
                batch.expressions.push(bytes);
                batch.flags.push(pattern.flags.0);
                batch.ids.push(#[verifier::truncate] (pattern.id as u32));
            },
            Err(e) => {
                return Err(e);
            },
        }
        proof {
            let before = patterns@.take(i as int);
            let after = patterns@.take(i + 1);
            assert forall|j: int| 0 <= j < after.len() implies batch.row_is(
                j,
                #[trigger] after[j],
            ) by {
                if j < i {
                    assert(after[j] == before[j]);
                }
            }
        }
        i += 1;
    }
    assert(patterns@.take(n as int) =~= patterns@);
    Ok(batch)
}

/// The position that the engine blames for a failure, where it blames one:
/// it reports a negative number where the failure is not about a single
/// expression.
pub open spec fn blamed_index(expression: i32) -> Option<usize> {
    if expression >= 0 {
        Some(expression as usize)
    } else {
        None
    }
}

/// Whether `r` is what a report of the engine's compiler means: success, an
/// exhausted memory, an unsupported platform, or else a compile error with
/// the engine's message and the position that it blames.
pub open spec fn is_compile_outcome(
    r: Result<(), ErrorKind>,
    status: i32,
    message: Seq<char>,
    expression: i32,
) -> bool {
    if status == HS_SUCCESS {
        r is Ok
    } else if status == HS_NOMEM {
        r == Err::<(), ErrorKind>(ErrorKind::AllocationFailed)
    } else if status == HS_ARCH_ERROR {
        r == Err::<(), ErrorKind>(ErrorKind::PlatformUnsupported)
    } else {
        &&& r matches Err(ErrorKind::CompileError { message: m, pattern_index })
        &&& m@ == message
        &&& pattern_index == blamed_index(expression)
    }
}

/// Reads what the engine's compiler reported: its status, and for a failure
/// its message and the position of the expression that it blames.
pub fn compile_outcome(status: i32, message: String, expression: i32) -> (r: Result<
    (),
    ErrorKind,
>)
    ensures
        is_compile_outcome(r, status, message@, expression),
{
    if status == HS_SUCCESS {
        Ok(())
    } else if status == HS_NOMEM {
        Err(ErrorKind::AllocationFailed)
    } else if status == HS_ARCH_ERROR {
        Err(ErrorKind::PlatformUnsupported)
    } else if expression >= 0 {
        Err(ErrorKind::CompileError { message, pattern_index: Some(expression as usize) })
    } else {
        Err(ErrorKind::CompileError { message, pattern_index: None })
    }
}

/// A batch of no patterns is always laid out, as three empty columns.
pub proof fn lemma_empty_batch(r: Result<CompileBatch, ErrorKind>)
    requires
        is_batch_of(r, Seq::<Pattern>::empty()),
    ensures
        r is Ok,
        r.unwrap().expressions@.len() == 0,
        r.unwrap().flags@.len() == 0,
        r.unwrap().ids@.len() == 0,
{
}

/// A failure that the engine pins on the expression at `index` is reported
/// as a compile error that names `index`.
pub proof fn lemma_compile_error_names_index(
    r: Result<(), ErrorKind>,
    status: i32,
    message: Seq<char>,
    index: i32,
)
    requires
        is_compile_outcome(r, status, message, index),
        status == HS_COMPILER_ERROR,
        index >= 0,
    ensures
        r matches Err(ErrorKind::CompileError { message: m, pattern_index }) && pattern_index
            == Some(index as usize) && m@ == message,
{
}

} // verus!
