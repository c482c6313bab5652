use halp::StringHashMap;
use halp::template::HalpTemplateError;
use halp::template::parse_template;

const CHEAT_SH_URL_TEMPLATE: &str = "https://cheat.sh/{cmd}{?/{subcommand}}{? {args}}";

fn values_map() -> StringHashMap<String> {
    let mut values_map = StringHashMap::new();
    values_map.insert("cmd".to_string(), "git".to_string());
    values_map.insert("subcommand".to_string(), "commit".to_string());
    values_map.insert("args".to_string(), "-a".to_string());
    values_map
}

#[test]
fn test_parse_cheat_dot_sh_template() {
    let result = parse_template(CHEAT_SH_URL_TEMPLATE, &values_map()).unwrap();
    assert_eq!(result, "https://cheat.sh/git/commit -a");
}

#[test]
fn test_parse_cheat_dot_sh_template_no_args() {
    let mut values_map = values_map();
    values_map.remove("args");
    let result = parse_template(CHEAT_SH_URL_TEMPLATE, &values_map).unwrap();
    assert_eq!(result, "https://cheat.sh/git/commit");
}

#[test]
fn test_dose_nothing() {
    let result = parse_template("https://cheat.sh/git/commit -a", &values_map()).unwrap();
    assert_eq!(result, "https://cheat.sh/git/commit -a");
}

#[test]
fn test_basic_template_with_one_placeholder() {
    let result = parse_template("{cmd}", &values_map()).unwrap();
    assert_eq!(result, "git");
}

#[test]
fn test_basic_template_with_one_placeholder_and_text() {
    let result = parse_template("man {cmd}", &values_map()).unwrap();
    assert_eq!(result, "man git");
}

#[test]
fn test_basic_template_with_more_than_one_placeholder() {
    let result = parse_template("{cmd} {subcommand}", &values_map()).unwrap();
    assert_eq!(result, "git commit");
}

#[test]
fn test_basic_template_with_more_then_one_placeholder_and_text() {
    let result = parse_template("info {cmd}/{subcommand}", &values_map()).unwrap();
    assert_eq!(result, "info git/commit");
}

#[test]
fn test_nested_options_lv_one() {
    let result = parse_template("{cmd}{?/{subcommand}}", &values_map()).unwrap();
    assert_eq!(result, "git/commit");
}

#[test]
fn test_nested_options_lv_two() {
    let result = parse_template("{cmd}{?/{subcommand}{? {args}}}", &values_map()).unwrap();
    assert_eq!(result, "git/commit -a");
}

#[test]
fn test_nested_options_lv_three() {
    let result = parse_template("{cmd}{?/{subcommand}{? {args}{? {args2}}}}", &values_map())
        .unwrap();
    assert_eq!(result, "git/commit -a");
}

#[test]
fn test_nested_options_lv_three_2() {
    let result = parse_template("{cmd}{?/{subcommand}{?/{args}{?/{args2}}}}", &values_map())
        .unwrap();
    assert_eq!(result, "git/commit/-a");
}

#[test]
fn test_escape() {
    let result = parse_template("\\{cmd\\}", &values_map()).unwrap();
    assert_eq!(result, "{cmd}");
}

#[test]
fn test_escape_with_placeholder() {
    let result = parse_template("\\{cmd\\} {subcommand} \\", &values_map()).unwrap();
    assert_eq!(result, "{cmd} commit \\");
}

#[test]
fn test_escape_with_placeholder_and_option() {
    let result = parse_template("\\{cmd\\}{?/{subcommand}} {?args}", &values_map()).unwrap();
    assert_eq!(result, "{cmd}/commit -a");
}

#[test]
fn test_none_exist_placeholder_error() {
    let result = parse_template("{cmd}-{subcommand} {argsn}", &values_map());
    assert!(result.is_err());
    assert_eq!(
        result.expect_err("This should fail"),
        HalpTemplateError::NoSuhPlaceholder("argsn".to_string())
    );
}

#[test]
fn test_no_placeholder_error_handle() {
    let result = parse_template("search: {cmd}-{?subcommand} {?argsn}", &values_map()).unwrap();
    assert_eq!(result, "search: git-commit ");
}

#[test]
fn test_escaped_question_mark() {
    let result = parse_template("really\\?", &values_map()).unwrap();
    assert_eq!(result, "really?");
}

#[test]
fn test_escape_of_other_character_vanishes() {
    // A backslash before a non-structural character consumes both; the
    // observed asymmetry of the escaping rule.
    let result = parse_template("a\\xb", &values_map()).unwrap();
    assert_eq!(result, "ab");
}

#[test]
fn test_optional_block_with_literal_prefix_dropped() {
    let result = parse_template("cheat{? extra {args2}} sheet", &values_map()).unwrap();
    assert_eq!(result, "cheat sheet");
}

#[test]
fn test_empty_braces_nested_are_a_no_op() {
    let result = parse_template("{{cmd}}", &values_map()).unwrap();
    assert_eq!(result, "git");
}

#[test]
fn test_missing_closing_brace() {
    let result = parse_template("{cmd", &values_map());
    assert_eq!(
        result.expect_err("This should fail"),
        HalpTemplateError::MissingClosingBract(3)
    );
}

#[test]
fn test_missing_closing_brace_position_counts_output() {
    let result = parse_template("ab{cmd}{xy", &values_map());
    // Output so far: "abgit" plus the buffered literal "xy".
    assert_eq!(
        result.expect_err("This should fail"),
        HalpTemplateError::MissingClosingBract(7)
    );
}

#[test]
fn test_missing_opening_brace_at_start() {
    let result = parse_template("}rest", &values_map());
    assert_eq!(
        result.expect_err("This should fail"),
        HalpTemplateError::MissingOpeningBract(0)
    );
}

#[test]
fn test_missing_opening_brace_after_placeholder() {
    let result = parse_template("{cmd}}", &values_map());
    assert_eq!(
        result.expect_err("This should fail"),
        HalpTemplateError::MissingOpeningBract(3)
    );
}

#[test]
fn test_placeholder_value_is_substituted_not_copied() {
    let mut values_map = StringHashMap::new();
    values_map.insert("name".to_string(), "Ferris".to_string());
    let result = parse_template("Hello {name}!", &values_map).unwrap();
    assert_eq!(result, "Hello Ferris!");
}

#[test]
fn test_template_with_parsed_cmd() {
    let mut values_map = StringHashMap::new();
    halp::cmd_parse::parse_cmd("git commit -a", &mut values_map);
    let result = parse_template(CHEAT_SH_URL_TEMPLATE, &values_map).unwrap();
    assert_eq!(result, "https://cheat.sh/git/commit -a");
}

#[test]
fn test_empty_template() {
    let result = parse_template("", &values_map()).unwrap();
    assert_eq!(result, "");
}
