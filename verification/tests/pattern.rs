use hyperscan::constants::{HS_FLAG_CASELESS, HS_FLAG_DOTALL, HS_FLAG_MULTILINE};
use hyperscan::text::{find_char, parse_id, render_decimal, rfind_char};
use hyperscan::{CompileFlags, ErrorKind, Pattern};

#[test]
fn test_pattern() {
    let p = Pattern::parse("test").unwrap();

    assert_eq!(p.expression, "test");
    assert_eq!(p.flags, CompileFlags(0));
    assert_eq!(p.id, 0);

    let p = Pattern::parse("/test/").unwrap();

    assert_eq!(p.expression, "test");
    assert_eq!(p.flags, CompileFlags(0));
    assert_eq!(p.id, 0);

    let p = Pattern::parse("/test/i").unwrap();

    assert_eq!(p.expression, "test");
    assert_eq!(p.flags, CompileFlags(HS_FLAG_CASELESS));
    assert_eq!(p.id, 0);

    let p = Pattern::parse("3:/test/i").unwrap();

    assert_eq!(p.expression, "test");
    assert_eq!(p.flags, CompileFlags(HS_FLAG_CASELESS));
    assert_eq!(p.id, 3);

    let p = Pattern::parse("test/i").unwrap();

    assert_eq!(p.expression, "test/i");
    assert_eq!(p.flags, CompileFlags(0));
    assert_eq!(p.id, 0);

    let p = Pattern::parse("/t/e/s/t/i").unwrap();

    assert_eq!(p.expression, "t/e/s/t");
    assert_eq!(p.flags, CompileFlags(HS_FLAG_CASELESS));
    assert_eq!(p.id, 0);
}

#[test]
fn pattern_parse_single_slash_is_literal() {
    let p = Pattern::parse("/").unwrap();
    assert_eq!(p.expression, "/");
    assert_eq!(p.flags, CompileFlags(0));

    let p = Pattern::parse("/abc").unwrap();
    assert_eq!(p.expression, "/abc");
    assert_eq!(p.flags, CompileFlags(0));
}

#[test]
fn pattern_parse_empty_forms() {
    let p = Pattern::parse("").unwrap();
    assert_eq!(p.expression, "");
    assert_eq!(p.id, 0);

    let p = Pattern::parse("//").unwrap();
    assert_eq!(p.expression, "");
    assert_eq!(p.flags, CompileFlags(0));

    let p = Pattern::parse("7:").unwrap();
    assert_eq!(p.expression, "");
    assert_eq!(p.id, 7);
}

#[test]
fn pattern_parse_several_flags() {
    let p = Pattern::parse("12:/a.*b/ism").unwrap();
    assert_eq!(p.expression, "a.*b");
    assert_eq!(p.flags, CompileFlags(HS_FLAG_CASELESS | HS_FLAG_DOTALL | HS_FLAG_MULTILINE));
    assert_eq!(p.id, 12);
}

#[test]
fn pattern_parse_non_ascii_expression() {
    let p = Pattern::parse("5:/\u{e9}t\u{e9}/i").unwrap();
    assert_eq!(p.expression, "\u{e9}t\u{e9}");
    assert_eq!(p.flags, CompileFlags(HS_FLAG_CASELESS));
    assert_eq!(p.id, 5);
}

#[test]
fn pattern_parse_invalid_id() {
    assert_eq!(Pattern::parse("x:/test/i").unwrap_err(), ErrorKind::InvalidId);
    assert_eq!(Pattern::parse(":/test/i").unwrap_err(), ErrorKind::InvalidId);
    assert_eq!(Pattern::parse("-1:/test/i").unwrap_err(), ErrorKind::InvalidId);
    assert_eq!(Pattern::parse("/a:b/i").unwrap_err(), ErrorKind::InvalidId);
    assert_eq!(
        Pattern::parse("99999999999999999999999999:/test/").unwrap_err(),
        ErrorKind::InvalidId
    );
}

#[test]
fn pattern_parse_invalid_id_comes_before_invalid_flag() {
    assert_eq!(Pattern::parse("x:/test/z").unwrap_err(), ErrorKind::InvalidId);
}

#[test]
fn pattern_parse_invalid_flag() {
    assert_eq!(Pattern::parse("/test/z").unwrap_err(), ErrorKind::InvalidFlag('z'));
    assert_eq!(Pattern::parse("1:/test/iz").unwrap_err(), ErrorKind::InvalidFlag('z'));
}

#[test]
fn pattern_parse_only_first_colon_splits() {
    let p = Pattern::parse("4:/a:b/").unwrap();
    assert_eq!(p.expression, "a:b");
    assert_eq!(p.id, 4);
}

#[test]
fn pattern_to_string_is_canonical() {
    let p = Pattern::parse("test").unwrap();
    assert_eq!(p.to_string(), "0:/test/");

    let p = Pattern::parse("3:/test/i").unwrap();
    assert_eq!(p.to_string(), "3:/test/i");

    let p = Pattern::new(String::from("foo"), CompileFlags(HS_FLAG_DOTALL | HS_FLAG_CASELESS), 120);
    assert_eq!(p.to_string(), "120:/foo/is");
}

#[test]
fn pattern_to_string_escapes_meta_characters() {
    let p = Pattern::new(String::from("a.b*c"), CompileFlags(0), 1);
    assert_eq!(p.to_string(), "1:/a\\.b\\*c/");

    let p = Pattern::new(String::from("\\.+*?()|[]{}^$#&-~"), CompileFlags(0), 0);
    assert_eq!(p.to_string(), "0:/\\\\\\.\\+\\*\\?\\(\\)\\|\\[\\]\\{\\}\\^\\$\\#\\&\\-\\~/");

    let p = Pattern::new(String::from("a/b c"), CompileFlags(0), 0);
    assert_eq!(p.to_string(), "0:/a/b c/");
}

#[test]
fn pattern_new_keeps_its_parts() {
    let p = Pattern::new(String::from("test"), CompileFlags(HS_FLAG_CASELESS), 9);
    assert_eq!(p.expression, "test");
    assert_eq!(p.flags, CompileFlags(HS_FLAG_CASELESS));
    assert_eq!(p.id, 9);
}

#[test]
fn parse_id_accepts_unsigned_decimal() {
    assert_eq!(parse_id("0"), Some(0));
    assert_eq!(parse_id("007"), Some(7));
    assert_eq!(parse_id("+42"), Some(42));
    assert_eq!(parse_id("4294967295"), Some(4294967295));
    assert_eq!(parse_id(&usize::MAX.to_string()), Some(usize::MAX));
}

#[test]
fn parse_id_rejects_everything_else() {
    assert_eq!(parse_id(""), None);
    assert_eq!(parse_id("+"), None);
    assert_eq!(parse_id("++1"), None);
    assert_eq!(parse_id("-1"), None);
    assert_eq!(parse_id("1a"), None);
    assert_eq!(parse_id(" 1"), None);
    assert_eq!(parse_id("\u{661}"), None);
    let mut too_large = usize::MAX.to_string();
    too_large.push('0');
    assert_eq!(parse_id(&too_large), None);
    assert_eq!(parse_id("18446744073709551616"), None);
}

#[test]
fn render_decimal_writes_base_ten() {
    assert_eq!(render_decimal(0), "0");
    assert_eq!(render_decimal(9), "9");
    assert_eq!(render_decimal(10), "10");
    assert_eq!(render_decimal(1234567890), "1234567890");
    assert_eq!(render_decimal(usize::MAX), usize::MAX.to_string());
}

#[test]
fn render_decimal_then_parse_id_round_trips() {
    for n in [0usize, 1, 9, 10, 99, 100, 65535, 4294967295, usize::MAX] {
        assert_eq!(parse_id(&render_decimal(n)), Some(n));
    }
}

#[test]
fn find_char_counts_characters() {
    assert_eq!(find_char("a:b:c", ':'), Some(1));
    assert_eq!(rfind_char("a:b:c", ':'), Some(3));
    assert_eq!(find_char("abc", ':'), None);
    assert_eq!(rfind_char("abc", ':'), None);
    assert_eq!(find_char("\u{e9}:", ':'), Some(1));
    assert_eq!(rfind_char("", '/'), None);
}

#[test]
fn pattern_from_str_is_parse() {
    let p: Pattern = "3:/test/i".parse().unwrap();
    assert_eq!(p.expression, "test");
    assert_eq!(p.flags, CompileFlags(HS_FLAG_CASELESS));
    assert_eq!(p.id, 3);
    assert_eq!("a:b".parse::<Pattern>().unwrap_err(), ErrorKind::InvalidId);
}

#[test]
fn pattern_canonical_text_reads_back_escaped() {
    let p = Pattern::new(String::from("a.b/c"), CompileFlags(HS_FLAG_DOTALL), 42);
    let q = Pattern::parse(&p.to_string()).unwrap();
    assert_eq!(q.expression, "a\\.b/c");
    assert_eq!(q.flags, CompileFlags(HS_FLAG_DOTALL));
    assert_eq!(q.id, 42);

    let p = Pattern::new(String::from("x:y"), CompileFlags(0), 1);
    let q = Pattern::parse(&p.to_string()).unwrap();
    assert_eq!(q.expression, "x:y");
    assert_eq!(q.id, 1);
}
