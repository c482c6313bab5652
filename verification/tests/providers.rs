use halp::providers::CheatDotSh;
use halp::providers::Cheatsheets;
use halp::providers::Eg;
use halp::providers::DEFAULT_CHEAT_SHEET_PROVIDER;
use halp::providers::DEFAULT_CHEATSHEETS_PROVIDER;
use halp::providers::DEFAULT_EG_PAGES_PROVIDER;

#[test]
fn test_cheat_dot_sh_page_url() {
    assert_eq!(CheatDotSh.url(), DEFAULT_CHEAT_SHEET_PROVIDER);
    assert_eq!(
        CheatDotSh.page_url("ls", CheatDotSh.url()),
        "https://cheat.sh/ls"
    );
}

#[test]
fn test_cheatsheets_page_url() {
    assert_eq!(Cheatsheets.url(), DEFAULT_CHEATSHEETS_PROVIDER);
    assert_eq!(
        Cheatsheets.page_url("ls", Cheatsheets.url()),
        "https://raw.githubusercontent.com/cheat/cheatsheets/master/ls"
    );
}

#[test]
fn test_eg_page_url() {
    assert_eq!(Eg.url(), DEFAULT_EG_PAGES_PROVIDER);
    assert_eq!(
        Eg.page_url("ls", Eg.url()),
        "https://raw.githubusercontent.com/srsudar/eg/master/eg/examples/ls.md"
    );
}

#[test]
fn test_page_url_with_custom_root() {
    assert_eq!(
        CheatDotSh.page_url("tar", "https://example.org"),
        "https://example.org/tar"
    );
}

#[test]
fn test_unknown_topic_detection() {
    assert!(CheatDotSh.is_unknown_topic("Unknown topic.\nDid you mean one of these?"));
    assert!(!CheatDotSh.is_unknown_topic("# To list files:\nls"));
    assert!(!CheatDotSh.is_unknown_topic("Unknown"));
}
