use conduit::error::Error;
use conduit::models::{AuditQuery, AuthKind};
use conduit::text::{
    copied, decimal, indent, join2, join3, lines, listed, same, signed_decimal, strip_prefix,
};

#[test]
fn decimals() {
    assert_eq!(decimal(0), "0");
    assert_eq!(decimal(65535), "65535");
    assert_eq!(decimal(u128::MAX), u128::MAX.to_string());
    assert_eq!(signed_decimal(-7), "-7");
    assert_eq!(signed_decimal(i64::MIN), i64::MIN.to_string());
    assert_eq!(signed_decimal(i64::MAX), i64::MAX.to_string());
}

#[test]
fn joining_and_comparing() {
    assert_eq!(join2("a", "b"), "ab");
    assert_eq!(join3("a", "", "c"), "ac");
    assert!(same("grün", "grün"));
    assert!(!same("a", "ab"));
    assert!(!same("aa", "ab"));
    assert_eq!(strip_prefix("Bearer x", "Bearer "), Some("x"));
    assert_eq!(strip_prefix("Bearer", "Bearer "), None);
    assert_eq!(strip_prefix("ünter", "ü"), Some("nter"));
}

#[test]
fn line_splitting() {
    let empty: Vec<String> = Vec::new();
    assert_eq!(lines(""), empty);
    assert_eq!(lines("a"), vec!["a"]);
    assert_eq!(lines("a\n"), vec!["a"]);
    assert_eq!(lines("a\r\nb\n\nc\r"), vec!["a", "b", "", "c\r"]);
    assert_eq!(lines("\n"), vec![""]);
}

#[test]
fn indenting() {
    assert_eq!(indent("a\nb", "    "), "    a\n    b");
    assert_eq!(indent("", "    "), "");
    assert_eq!(indent("one\n\nthree\n", "> "), "> one\n> \n> three");
}

#[test]
fn lists_of_texts() {
    let l = vec!["a".to_string(), "b".to_string()];
    assert!(listed(&l, "b"));
    assert!(!listed(&l, "c"));
    assert_eq!(copied(&l), l);
}

#[test]
fn error_texts() {
    let m = || "m".to_string();
    assert_eq!(Error::Crypto(m()).to_string(), "crypto: m");
    assert_eq!(Error::Db(m()).to_string(), "db: m");
    assert_eq!(Error::NotFound(m()).to_string(), "not found: m");
    assert_eq!(Error::Unauthorized(m()).to_string(), "unauthorized: m");
    assert_eq!(Error::Forbidden(m()).to_string(), "forbidden: m");
    assert_eq!(Error::Invalid(m()).to_string(), "invalid input: m");
    assert_eq!(Error::Io(m()).to_string(), "io: m");
    assert_eq!(Error::Other(m()).to_string(), "other: m");
}

#[test]
fn auth_kinds_are_read_loosely() {
    assert_eq!(AuthKind::from_str_loose("cert"), AuthKind::Cert);
    assert_eq!(AuthKind::from_str_loose("CeRt"), AuthKind::Cert);
    assert_eq!(AuthKind::from_str_loose("KEY"), AuthKind::Key);
    assert_eq!(AuthKind::from_str_loose("password"), AuthKind::Password);
    assert_eq!(AuthKind::from_str_loose("kéy"), AuthKind::Password);
    assert_eq!(AuthKind::from_str_loose(""), AuthKind::Password);
}

#[test]
fn default_audit_query_filters_nothing() {
    let q = AuditQuery::default();
    assert!(q.user_id.is_none() && q.server.is_none() && q.session_id.is_none());
    assert!(q.since.is_none());
    assert_eq!(q.limit, 0);
}
