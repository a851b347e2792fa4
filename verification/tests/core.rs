use broll_rs::db::{db_file_path, schema_statements, statements_of};
use broll_rs::numbers::{decimal_string, parse_unsigned};
use broll_rs::text::{contains_text, trim};

#[test]
fn decimal_round_trip() {
    for n in [0u64, 7, 10, 12345, 1_000_000, u64::MAX] {
        let s = decimal_string(n);
        assert_eq!(s, n.to_string());
        assert_eq!(parse_unsigned(&s, u64::MAX), Some(n));
    }
}

#[test]
fn parse_unsigned_cases() {
    assert_eq!(parse_unsigned("+5", 100), Some(5));
    assert_eq!(parse_unsigned("", 100), None);
    assert_eq!(parse_unsigned("+", 100), None);
    assert_eq!(parse_unsigned("-5", 100), None);
    assert_eq!(parse_unsigned("101", 100), None);
    assert_eq!(parse_unsigned("100", 100), Some(100));
    assert_eq!(parse_unsigned("18446744073709551616", u64::MAX), None);
    assert_eq!(parse_unsigned("007", 100), Some(7));
}

#[test]
fn trim_and_contains() {
    assert_eq!(trim("  a b \t\n"), "a b");
    assert_eq!(trim("\u{3000}x\u{a0}"), "x");
    assert!(contains_text("pexels,pixabay", "pixabay"));
    assert!(!contains_text("pexels", "pexelsx"));
    assert!(contains_text("", ""));
}

#[test]
fn schema_has_four_statements() {
    let s = schema_statements();
    assert_eq!(s.len(), 4);
    assert!(s[0].starts_with("CREATE TABLE IF NOT EXISTS projects"));
    assert!(s[3].ends_with("ON videos(status)"));
    assert_eq!(statements_of(" a ; ;b;"), vec!["a", "b"]);
}

#[test]
fn database_file_paths() {
    assert_eq!(db_file_path("sqlite://library.db").as_deref(), Some("library.db"));
    assert_eq!(db_file_path("sqlite://sqlite://x.db").as_deref(), Some("x.db"));
    assert_eq!(db_file_path("sqlite://:memory:"), None);
    assert_eq!(db_file_path(":memory:"), None);
    assert_eq!(db_file_path("sqlite::memory:").as_deref(), Some("sqlite::memory:"));
}
