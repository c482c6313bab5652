use halp::cli::CliArgs;
use halp::cli::CliCommands;
use halp::config::Config;

#[test]
fn test_cli_args() {
    assert_eq!(Ok("--help"), CliArgs::parse_arg("\\--help").as_deref());
}

#[test]
fn test_update_config() {
    let mut config = Config::default();
    let args = CliArgs {
        subcommand: Some(CliCommands::Plz {
            cmd: "ps".to_string(),
            pager: Some("bat".to_string()),
            cheat_sh_url: None,
            cheat_url: None,
            eg_url: None,
            man_cmd: None,
            no_pager: false,
        }),
        ..Default::default()
    };
    args.update_config(&mut config);
    assert!(config.check_help);
    assert_eq!(Some(String::from("bat")), config.pager_command);
}

#[test]
fn test_parse_arg_inner_escape() {
    assert_eq!(Ok("a-b".to_string()), CliArgs::parse_arg("a\\-b"));
}

#[test]
fn test_parse_arg_lone_backslash() {
    assert_eq!(Ok("\\".to_string()), CliArgs::parse_arg("\\"));
}

#[test]
fn test_update_config_flags_and_timeout() {
    let mut config = Config::default();
    let args = CliArgs {
        no_help: true,
        no_version: true,
        timeout: Some(30),
        ..Default::default()
    };
    args.update_config(&mut config);
    assert!(!config.check_help);
    assert!(!config.check_version);
    assert_eq!(Some(30), config.timeout);
}

#[test]
fn test_update_config_check_args() {
    let mut config = Config::default();
    let args = CliArgs {
        check_args: Some(vec!["-x".to_string(), "--why".to_string()]),
        ..Default::default()
    };
    args.update_config(&mut config);
    assert_eq!(
        Some(vec![vec!["-x".to_string()], vec!["--why".to_string()]]),
        config.check_args
    );
}

#[test]
fn test_update_config_no_pager() {
    let mut config = Config::default();
    let args = CliArgs {
        subcommand: Some(CliCommands::Plz {
            cmd: "ps".to_string(),
            pager: Some("bat".to_string()),
            cheat_sh_url: Some("https://example.org".to_string()),
            cheat_url: None,
            eg_url: None,
            man_cmd: Some("info".to_string()),
            no_pager: true,
        }),
        ..Default::default()
    };
    args.update_config(&mut config);
    assert_eq!(None, config.pager_command);
    assert_eq!("info", config.man_command);
    assert_eq!(Some("https://example.org".to_string()), config.cheat_sh_url);
}
