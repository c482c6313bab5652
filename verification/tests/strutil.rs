use halp::args::ArgDisplay as ShortArgDisplay;
use halp::args::HelpArg as ShortHelpArg;
use halp::args::VersionArg as ShortVersionArg;
use halp::common::ArgDisplay;
use halp::common::HelpArg;
use halp::common::VersionArg;
use halp::strutil::is_space_char;
use halp::strutil::str_contains;
use halp::strutil::str_starts_with;
use halp::strutil::str_trim;

#[test]
fn test_is_space_char() {
    assert!(is_space_char(' '));
    assert!(is_space_char('\t'));
    assert!(is_space_char('\n'));
    assert!(is_space_char('\u{a0}'));
    assert!(!is_space_char('a'));
    assert!(!is_space_char('-'));
}

#[test]
fn test_str_starts_with() {
    assert!(str_starts_with("Unknown topic.", "Unknown"));
    assert!(str_starts_with("abc", ""));
    assert!(!str_starts_with("ab", "abc"));
    assert!(!str_starts_with("abc", "abd"));
}

#[test]
fn test_str_contains() {
    assert!(str_contains("the Unknown topic here", "Unknown topic"));
    assert!(str_contains("abc", ""));
    assert!(!str_contains("abc", "cb"));
    assert!(!str_contains("ab", "abc"));
}

#[test]
fn test_str_trim() {
    assert_eq!(str_trim("  a b \t"), "a b");
    assert_eq!(str_trim(""), "");
    assert_eq!(str_trim(" \n "), "");
    assert_eq!(str_trim("x"), "x");
}

#[test]
fn test_version_and_help_variants() {
    let version: Vec<&str> = VersionArg::variants().iter().map(|v| v.as_str()).collect();
    assert_eq!(version, vec!["-v", "-V", "--version", "version"]);
    let help: Vec<&str> = HelpArg::variants().iter().map(|v| v.as_str()).collect();
    assert_eq!(help, vec!["-h", "--help", "help", "-H"]);
}

#[test]
fn test_short_variant_lists() {
    let version: Vec<&str> = ShortVersionArg::variants()
        .iter()
        .map(|v| v.as_str())
        .collect();
    assert_eq!(version, vec!["-v", "-V", "--version"]);
    let help: Vec<&str> = ShortHelpArg::variants().iter().map(|v| v.as_str()).collect();
    assert_eq!(help, vec!["-h", "--help", "-H"]);
}
