use hxy::console::{format_console_time, run_context, run_lines, running_message, refusal_message,
    ConsoleSeverity, RunOutcome, RunRefusal};
use hxy::hexview::{format_offset, format_range};
use hxy::editor::Selection;
use hxy::newfile::anonymous_file_name;
use hxy::runtimes::{Diagnostic, Severity};
use hxy::settings::OffsetBase;
use hxy::source::entry_name;
use hxy::template::{format_scalar_literal, StructSyntax, Value};
use hxy::text::{eq_ignore_ascii_case, is_blank, lower_text, parse_dec, push_hex_padded, trim,
    trim_start};

#[test]
fn blanks_go_from_both_ends_only() {
    assert_eq!(trim(" \t a b \u{a0}\u{3000}"), "a b");
    assert_eq!(trim("   "), "");
    assert_eq!(trim(""), "");
    assert_eq!(trim("x"), "x");
    assert_eq!(trim_start("\n x "), "x ");
    assert_eq!(trim(&trim("  q ")), trim("  q "));
}

#[test]
fn decimal_numbers_are_read() {
    assert_eq!(parse_dec("0"), Some(0));
    assert_eq!(parse_dec("+17"), Some(17));
    assert_eq!(parse_dec("18446744073709551615"), Some(u64::MAX));
    assert_eq!(parse_dec("18446744073709551616"), None);
    assert_eq!(parse_dec(""), None);
    assert_eq!(parse_dec("+"), None);
    assert_eq!(parse_dec("-1"), None);
    assert_eq!(parse_dec("1 "), None);
    for n in [0u64, 7, 10, 99, 100, 4096, u64::MAX] {
        assert_eq!(parse_dec(&n.to_string()), Some(n));
    }
}

#[test]
fn numbers_are_written() {
    let mut out = String::new();
    push_hex_padded(&mut out, 0xAB, 4, true);
    push_hex_padded(&mut out, 0xAB, 1, false);
    assert_eq!(out, "00ABab");
    assert_eq!(format_offset(255, OffsetBase::Hex), "0xFF");
    assert_eq!(format_offset(255, OffsetBase::Decimal), "255");
    assert_eq!(
        format_range(Selection { anchor: 9, cursor: 4 }, OffsetBase::Decimal),
        "4-9 (6 bytes)"
    );
    assert_eq!(anonymous_file_name(0x2f), "000000000000002f.bin");
}

#[test]
fn letters_are_lowered() {
    assert_eq!(lower_text("AbC-Ä9"), "abc-Ä9");
    assert!(eq_ignore_ascii_case("HexPat", "hexpat"));
    assert!(!eq_ignore_ascii_case("bt", "btx"));
}

#[test]
fn the_console_shows_the_time_of_day() {
    assert_eq!(format_console_time(0), "00:00:00");
    assert_eq!(format_console_time(86_399), "23:59:59");
    assert_eq!(format_console_time(1_700_000_000), "22:13:20");
    assert_eq!(format_console_time(-1), "23:59:59");
}

#[test]
fn names_are_last_parts() {
    assert_eq!(entry_name("a/b/c.bin"), "c.bin");
    assert_eq!(entry_name("a/b/"), "b");
    assert_eq!(entry_name("//"), "//");
    assert_eq!(entry_name("plain"), "plain");
}

#[test]
fn text_values_are_quoted() {
    let v = Value::StringVal("a\"b\n".to_owned());
    assert_eq!(format_scalar_literal(&v, StructSyntax::Rust), "\"a\\\"b\\n\"");
    assert_eq!(format_scalar_literal(&Value::BytesVal(vec![1, 0xFE]), StructSyntax::C), "{0x01, 0xFE}");
}

#[test]
fn numbers_are_hexadecimal_literals() {
    let text = |v: Value| format_scalar_literal(&v, StructSyntax::Rust);
    assert_eq!(text(Value::U8Val(5)), "0x05");
    assert_eq!(text(Value::S8Val(5)), "0x05");
    assert_eq!(text(Value::S8Val(-128)), "-0x80");
    assert_eq!(text(Value::S16Val(-1)), "-0x0001");
    assert_eq!(text(Value::S32Val(5)), "0x00000005");
    assert_eq!(text(Value::S64Val(i64::MIN)), "-0x8000000000000000");
    assert_eq!(text(Value::EnumVal("Red".to_owned(), 2)), "2 /* Red */");
}

#[test]
fn template_runs_are_told() {
    assert_eq!(run_context("data.bin", "zip.bt"), "data.bin / zip.bt");
    assert_eq!(running_message("zip.bt"), "running template `zip.bt`...");
    let fine = run_lines(&RunOutcome::Ran(Vec::new()));
    assert_eq!(fine.len(), 1);
    assert_eq!(fine[0].severity, ConsoleSeverity::Info);
    assert_eq!(fine[0].message, "template executed successfully");
    let told = run_lines(&RunOutcome::Ran(vec![Diagnostic {
        message: "bad magic".to_owned(),
        severity: Severity::Warning,
        file_offset: Some(16),
        template_line: None,
    }]));
    assert_eq!(told.len(), 1);
    assert_eq!(told[0].severity, ConsoleSeverity::Warning);
    assert_eq!(told[0].message, "bad magic @ 0x10");
    let failed = run_lines(&RunOutcome::ParseFailed("eof".to_owned()));
    assert_eq!(failed[0].message, "Parse failed: eof");
    assert_eq!(failed[0].severity, ConsoleSeverity::Error);
    let stopped = run_lines(&RunOutcome::ExecuteFailed("x".to_owned()));
    assert_eq!(stopped[0].message, "Execute failed: x");
    assert_eq!(
        refusal_message(&RunRefusal::NoRuntime { extension: "foo".to_owned(), dir: None }),
        "No template runtime is registered for .foo files.\nInstall a matching runtime component (.wasm) into:\n$DATA/hxy/template-plugins"
    );
    assert_eq!(
        refusal_message(&RunRefusal::Unreadable { path: "/t.bt".to_owned(), reason: "gone".to_owned() }),
        "Failed to read template source /t.bt: gone"
    );
}

#[test]
fn blanks_are_those_of_unicode() {
    for c in '\0'..=char::MAX {
        assert_eq!(is_blank(c), c.is_whitespace());
    }
}
