use hyperscan::compile::{build_batch, c_expression, compile_outcome};
use hyperscan::constants::{
    HS_ARCH_ERROR, HS_COMPILER_ERROR, HS_DB_PLATFORM_ERROR, HS_DB_VERSION_ERROR, HS_FLAG_CASELESS,
    HS_FLAG_DOTALL, HS_INVALID, HS_MODE_BLOCK, HS_MODE_STREAM, HS_MODE_VECTORED, HS_NOMEM,
    HS_SUCCESS,
};
use hyperscan::serialized::{check_region, serialized_outcome, size_outcome};
use hyperscan::{CBuffer, CompileFlags, ErrorKind, ExpressionInfo, Mode, Pattern, PlatformInfo};

fn numbered(expressions: &[&str], flags: u32) -> Vec<Pattern> {
    let mut patterns = Vec::new();
    for expression in expressions {
        let id = patterns.len() + 1;
        patterns.push(Pattern::new(String::from(*expression), CompileFlags(flags), id));
    }
    patterns
}

#[test]
fn batch_of_no_patterns_is_empty() {
    let batch = build_batch(&Vec::new()).unwrap();
    assert_eq!(batch.len(), 0);
    assert!(batch.expressions.is_empty());
    assert!(batch.flags.is_empty());
    assert!(batch.ids.is_empty());
}

#[test]
fn batch_holds_one_row_per_pattern() {
    let patterns = numbered(&["test", "foo", "bar"], HS_FLAG_CASELESS | HS_FLAG_DOTALL);
    let batch = build_batch(&patterns).unwrap();
    assert_eq!(batch.len(), 3);
    assert_eq!(batch.expressions, vec![b"test\0".to_vec(), b"foo\0".to_vec(), b"bar\0".to_vec()]);
    assert_eq!(batch.flags, vec![3, 3, 3]);
    assert_eq!(batch.ids, vec![1, 2, 3]);
}

#[test]
fn batch_encodes_expressions_as_utf8() {
    let patterns = numbered(&["\u{e9}"], 0);
    let batch = build_batch(&patterns).unwrap();
    assert_eq!(batch.expressions, vec![vec![0xc3u8, 0xa9, 0]]);
}

#[test]
fn batch_cuts_ids_to_32_bits() {
    let patterns = vec![Pattern::new(String::from("a"), CompileFlags(0), usize::MAX)];
    let batch = build_batch(&patterns).unwrap();
    assert_eq!(batch.ids, vec![u32::MAX]);
}

#[test]
fn batch_names_first_expression_with_nul() {
    let patterns = numbered(&["ok", "b\0d", "also\0bad"], 0);
    assert_eq!(
        build_batch(&patterns).unwrap_err(),
        ErrorKind::CompileError {
            message: String::from("expression contains a NUL byte"),
            pattern_index: Some(1),
        }
    );
}

#[test]
fn c_expression_appends_terminator() {
    assert_eq!(c_expression("test", None), Ok(b"test\0".to_vec()));
    assert_eq!(c_expression("", None), Ok(vec![0u8]));
    assert_eq!(
        c_expression("\0", None),
        Err(ErrorKind::CompileError {
            message: String::from("expression contains a NUL byte"),
            pattern_index: None,
        })
    );
}

#[test]
fn compile_outcome_reads_each_status() {
    assert_eq!(compile_outcome(HS_SUCCESS, String::new(), -1), Ok(()));
    assert_eq!(
        compile_outcome(HS_NOMEM, String::from("x"), 0),
        Err(ErrorKind::AllocationFailed)
    );
    assert_eq!(
        compile_outcome(HS_ARCH_ERROR, String::from("x"), 0),
        Err(ErrorKind::PlatformUnsupported)
    );
    assert_eq!(
        compile_outcome(HS_COMPILER_ERROR, String::from("Missing close parenthesis"), 2),
        Err(ErrorKind::CompileError {
            message: String::from("Missing close parenthesis"),
            pattern_index: Some(2),
        })
    );
    assert_eq!(
        compile_outcome(HS_COMPILER_ERROR, String::from("Unable to allocate"), -1),
        Err(ErrorKind::CompileError {
            message: String::from("Unable to allocate"),
            pattern_index: None,
        })
    );
    assert_eq!(
        compile_outcome(HS_INVALID, String::new(), 0),
        Err(ErrorKind::CompileError { message: String::new(), pattern_index: Some(0) })
    );
}

#[test]
fn serialized_outcome_reads_each_status() {
    assert_eq!(serialized_outcome(HS_SUCCESS), Ok(()));
    assert_eq!(serialized_outcome(HS_INVALID), Err(ErrorKind::CorruptHeader));
    assert_eq!(serialized_outcome(HS_NOMEM), Err(ErrorKind::AllocationFailed));
    assert_eq!(serialized_outcome(HS_DB_VERSION_ERROR), Err(ErrorKind::VersionMismatch));
    assert_eq!(serialized_outcome(HS_DB_PLATFORM_ERROR), Err(ErrorKind::PlatformMismatch));
    assert_eq!(serialized_outcome(-7), Err(ErrorKind::CorruptHeader));
    assert_eq!(serialized_outcome(1), Err(ErrorKind::CorruptHeader));
}

#[test]
fn size_outcome_keeps_size_on_success_only() {
    assert_eq!(size_outcome(HS_SUCCESS, 2664), Ok(2664));
    assert_eq!(size_outcome(HS_INVALID, 2664), Err(ErrorKind::CorruptHeader));
    assert_eq!(size_outcome(HS_DB_VERSION_ERROR, 0), Err(ErrorKind::VersionMismatch));
}

#[test]
fn size_outcome_is_repeatable() {
    assert_eq!(size_outcome(HS_SUCCESS, 10), size_outcome(HS_SUCCESS, 10));
    assert_eq!(size_outcome(HS_INVALID, 10), size_outcome(HS_INVALID, 10));
}

#[test]
fn check_region_compares_sizes() {
    assert_eq!(check_region(100, 100), Ok(()));
    assert_eq!(check_region(100, 101), Ok(()));
    assert_eq!(check_region(100, 99), Err(ErrorKind::SizeMismatch));
    assert_eq!(check_region(0, 0), Ok(()));
}

#[test]
fn expression_info_from_raw_widens_and_tests_bytes() {
    let info = ExpressionInfo::from_raw(4, 4, 0, 0, 0);
    assert_eq!(info.min_width, 4);
    assert_eq!(info.max_width, 4);
    assert!(!info.unordered_matches);
    assert!(!info.matches_at_eod);
    assert!(!info.matches_only_at_eod);

    let info = ExpressionInfo::from_raw(0, u32::MAX, 1, -1, 2);
    assert_eq!(info.min_width, 0);
    assert_eq!(info.max_width, 4294967295);
    assert!(info.unordered_matches);
    assert!(info.matches_at_eod);
    assert!(info.matches_only_at_eod);
}

#[test]
fn mode_ids_are_the_engine_numbers() {
    assert_eq!(Mode::Block.id(), HS_MODE_BLOCK);
    assert_eq!(Mode::Streaming.id(), HS_MODE_STREAM);
    assert_eq!(Mode::Vectored.id(), HS_MODE_VECTORED);
    assert_eq!(Mode::Block.id(), 1);
    assert_eq!(Mode::Streaming.id(), 2);
    assert_eq!(Mode::Vectored.id(), 4);
}

#[test]
fn platform_info_keeps_its_parts() {
    let info = PlatformInfo::new(3, 4);
    assert_eq!(info.tune, 3);
    assert_eq!(info.cpu_features, 4);
    assert_eq!(info, PlatformInfo { tune: 3, cpu_features: 4 });
}

#[test]
fn cbuffer_owns_its_bytes() {
    let buffer = CBuffer::new(vec![1u8, 2, 3]);
    assert_eq!(buffer.len(), 3);
    assert_eq!(buffer.as_slice(), &[1u8, 2, 3]);
    let copy = buffer.clone();
    assert_eq!(buffer.into_vec(), vec![1u8, 2, 3]);
    assert_eq!(copy.as_slice(), &[1u8, 2, 3]);
    let empty: CBuffer<u8> = CBuffer::new(Vec::new());
    assert_eq!(empty.len(), 0);
}

#[test]
fn cbuffer_reads_as_a_slice() {
    let buffer = CBuffer::new(vec![7u8, 8]);
    let bytes: &[u8] = buffer.as_ref();
    assert_eq!(bytes, &[7u8, 8]);
    assert_eq!(buffer[1], 8);
    assert_eq!(buffer.iter().count(), 2);
}
