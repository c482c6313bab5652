use halp::config::Config;
use halp::plz_menu::PlzMenu;
use halp::plz_menu::PlzMenuSelection;
use halp::providers::DEFAULT_CHEAT_SHEET_PROVIDER;
use halp::providers::DEFAULT_CHEATSHEETS_PROVIDER;
use halp::providers::DEFAULT_EG_PAGES_PROVIDER;

#[test]
fn test_default_config() {
    let config = Config::default();
    assert!(config.check_help);
    assert!(config.check_version);
    assert_eq!(
        config.cheat_sh_url,
        Some(DEFAULT_CHEAT_SHEET_PROVIDER.to_string())
    );
    assert_eq!(config.eg_url, Some(DEFAULT_EG_PAGES_PROVIDER.to_string()));
    assert_eq!(
        config.cheatsheets_url,
        Some(DEFAULT_CHEATSHEETS_PROVIDER.to_string())
    );
    assert_eq!(config.man_command, "man");
    assert_eq!(config.pager_command, Some("less -R".to_string()));
    assert_eq!(config.timeout, Some(5));
    let groups = config.check_args.expect("default check args");
    assert_eq!(
        groups,
        vec![
            vec![
                "-v".to_string(),
                "-V".to_string(),
                "--version".to_string(),
                "version".to_string(),
            ],
            vec![
                "-h".to_string(),
                "--help".to_string(),
                "help".to_string(),
                "-H".to_string(),
            ],
        ]
    );
}

#[test]
fn test_groups_to_check() {
    let mut config = Config::default();
    let groups = config.groups_to_check();
    assert_eq!(groups.len(), 2);
    assert_eq!(groups[0][0], "-v");
    assert_eq!(groups[1][0], "-h");
    config.check_version = false;
    let groups = config.groups_to_check();
    assert_eq!(groups.len(), 1);
    assert_eq!(groups[0][0], "-h");
    config.check_help = false;
    assert!(config.groups_to_check().is_empty());
    config.check_help = true;
    config.check_args = None;
    assert!(config.groups_to_check().is_empty());
}

#[test]
fn test_default_plz_menu() {
    let menu = PlzMenu::default();
    assert_eq!(menu.selected_pos, PlzMenuSelection::Center);
    assert_eq!(menu.entries.len(), 4);
    assert_eq!(menu.entries[0].display_msg, "Show man page");
    assert_eq!(
        menu.entries[0].operation.get("run"),
        Some(&"man {cmd}".to_string())
    );
    assert_eq!(menu.entries[1].display_msg, "Show cheat.sh page");
    assert_eq!(
        menu.entries[1].operation.get("fetch"),
        Some(&"https://cheat.sh/{cmd}{?/{subcommand}}{? {args}}".to_string())
    );
    assert_eq!(
        menu.entries[1].operation.get("user-agent"),
        Some(&"fetch".to_string())
    );
    assert_eq!(menu.entries[2].display_msg, "Show eg page");
    assert_eq!(
        menu.entries[2].operation.get("fetch"),
        Some(&"https://raw.githubusercontent.com/srsudar/eg/master/eg/examples/{cmd}.md".to_string())
    );
    assert_eq!(menu.entries[3].display_msg, "Show cheatsheets page");
    assert_eq!(
        menu.entries[3].operation.get("fetch"),
        Some(&"https://raw.githubusercontent.com/cheat/cheatsheets/master/{cmd}".to_string())
    );
}
