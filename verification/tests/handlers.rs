use halp::handlers::fetch_page_is_error;
use halp::handlers::parse_env;
use halp::handlers::parse_headers;
use halp::handlers::parse_u64;

#[test]
fn test_parse_env_two_entries() {
    let entries = parse_env("PAGER=less,LANG=C").unwrap();
    assert_eq!(
        entries,
        vec![
            ("PAGER".to_string(), "less".to_string()),
            ("LANG".to_string(), "C".to_string()),
        ]
    );
}

#[test]
fn test_parse_env_value_with_equals_sign() {
    let entries = parse_env("OPTS=a=b").unwrap();
    assert_eq!(entries, vec![("OPTS".to_string(), "a=b".to_string())]);
}

#[test]
fn test_parse_env_missing_equals_sign() {
    let result = parse_env("PAGER");
    assert!(result.is_err());
    assert_eq!(result.err(), Some("env".to_string()));
}

#[test]
fn test_parse_env_empty_string() {
    let result = parse_env("");
    assert!(result.is_err());
    assert_eq!(result.err(), Some("env".to_string()));
}

#[test]
fn test_parse_headers_pairs() {
    let headers = parse_headers("accept: text/plain, x-count:3:9");
    assert_eq!(
        headers,
        vec![
            ("accept".to_string(), "text/plain".to_string()),
            ("x-count".to_string(), "3".to_string()),
        ]
    );
}

#[test]
fn test_parse_headers_without_colon() {
    let headers = parse_headers(" just-a-name ");
    assert_eq!(headers, vec![("just-a-name".to_string(), "".to_string())]);
}

#[test]
fn test_parse_u64_plain_and_signed() {
    assert_eq!(parse_u64("123"), Some(123));
    assert_eq!(parse_u64("+7"), Some(7));
    assert_eq!(parse_u64("0"), Some(0));
    assert_eq!(parse_u64("18446744073709551615"), Some(u64::MAX));
}

#[test]
fn test_parse_u64_rejects_bad_input() {
    assert_eq!(parse_u64(""), None);
    assert_eq!(parse_u64("+"), None);
    assert_eq!(parse_u64("12a"), None);
    assert_eq!(parse_u64("-3"), None);
    assert_eq!(parse_u64("18446744073709551616"), None);
}

#[test]
fn test_fetch_page_is_error() {
    assert!(fetch_page_is_error(""));
    assert!(fetch_page_is_error("Unknown topic, nothing here."));
    assert!(fetch_page_is_error("No manual entry for foo"));
    assert!(!fetch_page_is_error("# To list files:\nls"));
}
