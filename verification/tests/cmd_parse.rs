use halp::StringHashMap;
use halp::cmd_parse::parse_cmd;

#[test]
fn test_parse_complete_cmd() {
    let git_commit = "git commit -a";
    let mut values_map = StringHashMap::with_capacity(3);
    parse_cmd(git_commit, &mut values_map);
    assert!(values_map.contains_key("cmd"));
    assert_eq!(values_map.get("cmd"), Some(&"git".to_string()));
    assert!(values_map.contains_key("subcommand"));
    assert_eq!(values_map.get("subcommand"), Some(&"commit".to_string()));
    assert!(values_map.contains_key("args"));
    assert_eq!(values_map.get("args"), Some(&"-a".to_string()));
}

#[test]
fn test_parse_cmd_with_no_args() {
    let git_commit = "git commit";
    let mut values_map = StringHashMap::with_capacity(3);
    parse_cmd(git_commit, &mut values_map);
    assert!(values_map.contains_key("cmd"));
    assert_eq!(values_map.get("cmd"), Some(&"git".to_string()));
    assert!(values_map.contains_key("subcommand"));
    assert_eq!(values_map.get("subcommand"), Some(&"commit".to_string()));
    assert!(!values_map.contains_key("args"));
}

#[test]
fn test_parse_cmd_with_no_subcommand() {
    let git_commit = "git";
    let mut values_map = StringHashMap::with_capacity(3);
    parse_cmd(git_commit, &mut values_map);
    assert!(values_map.contains_key("cmd"));
    assert_eq!(values_map.get("cmd"), Some(&"git".to_string()));
    assert!(!values_map.contains_key("subcommand"));
    assert!(!values_map.contains_key("args"));
}

#[test]
fn test_parse_cmd_with_no_subcommand_and_args() {
    let git_commit = "git";
    let mut values_map = StringHashMap::with_capacity(3);
    parse_cmd(git_commit, &mut values_map);
    assert!(values_map.contains_key("cmd"));
    assert_eq!(values_map.get("cmd"), Some(&"git".to_string()));
    assert!(!values_map.contains_key("subcommand"));
    assert!(!values_map.contains_key("args"));
}

#[test]
fn test_parse_cmd_with_args_and_no_subcommand() {
    let command = "ps -aux";
    let mut values_map = StringHashMap::with_capacity(3);
    parse_cmd(command, &mut values_map);
    assert!(values_map.contains_key("cmd"));
    assert_eq!(values_map.get("cmd"), Some(&"ps".to_string()));
    assert!(!values_map.contains_key("subcommand"));
    assert!(values_map.contains_key("args"));
    assert_eq!(values_map.get("args"), Some(&"-aux".to_string()));
}

#[test]
fn test_parse_cmd_with_two_args_and_no_subcommand() {
    let command = "ps -aux -l";
    let mut values_map = StringHashMap::with_capacity(3);
    parse_cmd(command, &mut values_map);
    assert!(values_map.contains_key("cmd"));
    assert_eq!(values_map.get("cmd"), Some(&"ps".to_string()));
    assert!(!values_map.contains_key("subcommand"));
    assert!(values_map.contains_key("args"));
    assert_eq!(values_map.get("args"), Some(&"-aux -l".to_string()));
}

#[test]
fn test_parse_cmd_with_three_args_and_subcommand() {
    let command = "git commit -a -m \"commit message\"";
    let mut values_map = StringHashMap::with_capacity(3);
    parse_cmd(command, &mut values_map);
    assert!(values_map.contains_key("cmd"));
    assert_eq!(values_map.get("cmd"), Some(&"git".to_string()));
    assert!(values_map.contains_key("subcommand"));
    assert_eq!(values_map.get("subcommand"), Some(&"commit".to_string()));
    assert!(values_map.contains_key("args"));
    assert_eq!(
        values_map.get("args"),
        Some(&"-a -m \"commit message\"".to_string())
    );
}

#[test]
fn test_parse_cmd_with_surrounding_whitespace() {
    let command = "  git \t commit \n -a  ";
    let mut values_map = StringHashMap::with_capacity(3);
    parse_cmd(command, &mut values_map);
    assert_eq!(values_map.get("cmd"), Some(&"git".to_string()));
    assert_eq!(values_map.get("subcommand"), Some(&"commit".to_string()));
    assert_eq!(values_map.get("args"), Some(&"-a".to_string()));
}

#[test]
fn test_parse_cmd_with_taken_subcommand_key() {
    let mut values_map = StringHashMap::with_capacity(3);
    values_map.insert("subcommand".to_string(), "status".to_string());
    parse_cmd("git commit", &mut values_map);
    assert_eq!(values_map.get("cmd"), Some(&"git".to_string()));
    assert_eq!(values_map.get("subcommand"), Some(&"status".to_string()));
    assert_eq!(values_map.get("args"), Some(&"commit".to_string()));
}
