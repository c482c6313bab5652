//! The provider fetch paths, exercised on their computing parts: the URL
//! each provider asks for and the test that tells a help page from an
//! error answer.  The HTTP transfer itself is outside the library.

use halp::handlers::fetch_page_is_error;
use halp::providers::CheatDotSh;
use halp::providers::Cheatsheets;
use halp::providers::Eg;

const LS_CHEAT_PAGE: &str = "\
# To display all files, along with the size (with unit suffixes) and timestamp:
ls -lah

# Long format list with size displayed using human-readable units (KiB, MiB, GiB):
ls -lh
";

const LS_CHEATSHEETS_PAGE: &str = "\
# To display everything in <dir>, including hidden files:
ls -a <dir>

# To display directories only, include hidden:
ls -d .*/ */ <dir>
";

#[test]
fn cheat_sh_test_fetch_cheat_sheet() {
    assert_eq!(
        CheatDotSh.page_url("ls", CheatDotSh.url()),
        "https://cheat.sh/ls"
    );
    assert!(!CheatDotSh.is_unknown_topic(LS_CHEAT_PAGE));
    assert!(CheatDotSh.is_unknown_topic("Unknown topic.\nDid you mean one of these?"));
}

#[test]
fn test_fetch_cheatsheets() {
    assert_eq!(
        Cheatsheets.page_url("ls", Cheatsheets.url()),
        "https://raw.githubusercontent.com/cheat/cheatsheets/master/ls"
    );
    assert!(!fetch_page_is_error(LS_CHEATSHEETS_PAGE));
}

#[test]
fn test_eg_page_fetch() {
    assert_eq!(
        Eg.page_url("ls", Eg.url()),
        "https://raw.githubusercontent.com/srsudar/eg/master/eg/examples/ls.md"
    );
    assert!(!fetch_page_is_error("show contents of current directory\nls -alh"));
}

#[test]
fn fetch_test_fetch_cheat_sheet() {
    assert!(!fetch_page_is_error(LS_CHEAT_PAGE));
    assert!(fetch_page_is_error(""));
    assert!(fetch_page_is_error(
        "Unknown topic, This topic/command might has no page in this provider yet."
    ));
    assert!(fetch_page_is_error("No manual entry for unknown"));
}
