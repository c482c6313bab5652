//! Plz menu configuration: the entries offered when the user asks for
//! additional help, each naming an operation and its arguments.

use vstd::hash_map::StringHashMap;
use vstd::prelude::*;

use crate::strutil::lemma_map_view_insert;
use crate::strutil::map_view;

verus! {

/// Default cheat sheet page template.
pub const CHEAT_SH_URL_TEMPLATE: &'static str = "https://cheat.sh/{cmd}{?/{subcommand}}{? {args}}";

/// User agent for the cheat sheet provider, the one its server expects from
/// command-line clients.
pub const CHEAT_SH_USER_AGENT: &'static str = "fetch";

/// EG page template.
pub const EG_PAGES_URL_TEMPLATE: &'static str =
    "https://raw.githubusercontent.com/srsudar/eg/master/eg/examples/{cmd}.md";

/// The default cheatsheets page template.
pub const CHEATSHEETS_URL_TEMPLATE: &'static str =
    "https://raw.githubusercontent.com/cheat/cheatsheets/master/{cmd}";

/// Plz menu config.
pub struct PlzMenu {
    /// The default selected position in the menu.
    pub selected_pos: PlzMenuSelection,
    /// The menu entries.
    pub entries: Vec<PlzMenuEntry>,
}

/// Plz menu selection position.
#[derive(Debug, Clone, Copy, PartialEq, Eq)]
pub enum PlzMenuSelection {
    /// The first item in the menu.
    Start,
    /// The middle item in the menu (in case of an even number of items, the
    /// first item in the second half).
    Center,
    /// The last item in the menu.
    End,
}

/// Plz menu item.
pub struct PlzMenuEntry {
    /// The string to display in the menu.
    pub display_msg: String,
    /// The operation to perform, and its arguments.
    pub operation: StringHashMap<String>,
}

impl Default for PlzMenu {
    /// The built-in menu: man page, cheat.sh page, eg page and cheatsheets
    /// page, with the selection starting in the middle.
    fn default() -> (r: PlzMenu)
        ensures
            r.selected_pos == PlzMenuSelection::Center,
            r.entries@.len() == 4,
            r.entries@[0].display_msg@ == "Show man page"@,
            map_view(r.entries@[0].operation@) == Map::<Seq<char>, Seq<char>>::empty().insert(
                "run"@,
                "man {cmd}"@,
            ),
            r.entries@[1].display_msg@ == "Show cheat.sh page"@,
            map_view(r.entries@[1].operation@) == Map::<Seq<char>, Seq<char>>::empty().insert(
                "fetch"@,
                CHEAT_SH_URL_TEMPLATE@,
            ).insert("user-agent"@, CHEAT_SH_USER_AGENT@),
            r.entries@[2].display_msg@ == "Show eg page"@,
            map_view(r.entries@[2].operation@) == Map::<Seq<char>, Seq<char>>::empty().insert(
                "fetch"@,
                EG_PAGES_URL_TEMPLATE@,
            ),
            r.entries@[3].display_msg@ == "Show cheatsheets page"@,
            map_view(r.entries@[3].operation@) == Map::<Seq<char>, Seq<char>>::empty().insert(
                "fetch"@,
                CHEATSHEETS_URL_TEMPLATE@,
            ),
    {
        let mut man_op: StringHashMap<String> = StringHashMap::new();
        let ghost man0 = man_op@;
        let man_val = String::from_str("man {cmd}");
        let ghost man_val_spec = man_val;
        man_op.insert(String::from_str("run"), man_val);
        proof {
            assert(map_view(man0) =~= Map::<Seq<char>, Seq<char>>::empty());
            lemma_map_view_insert(man0, "run"@, man_val_spec);
        }
        let mut cheat_op: StringHashMap<String> = StringHashMap::new();
        let ghost cheat0 = cheat_op@;
        let cheat_val = String::from_str(CHEAT_SH_URL_TEMPLATE);
        let ghost cheat_val_spec = cheat_val;
        cheat_op.insert(String::from_str("fetch"), cheat_val);
        let ghost cheat1 = cheat_op@;
        let agent_val = String::from_str(CHEAT_SH_USER_AGENT);
        let ghost agent_val_spec = agent_val;
        cheat_op.insert(String::from_str("user-agent"), agent_val);
        proof {
            assert(map_view(cheat0) =~= Map::<Seq<char>, Seq<char>>::empty());
            lemma_map_view_insert(cheat0, "fetch"@, cheat_val_spec);
            lemma_map_view_insert(cheat1, "user-agent"@, agent_val_spec);
        }
        let mut eg_op: StringHashMap<String> = StringHashMap::new();
        let ghost eg0 = eg_op@;
        let eg_val = String::from_str(EG_PAGES_URL_TEMPLATE);
        let ghost eg_val_spec = eg_val;
        eg_op.insert(String::from_str("fetch"), eg_val);
        proof {
            assert(map_view(eg0) =~= Map::<Seq<char>, Seq<char>>::empty());
            lemma_map_view_insert(eg0, "fetch"@, eg_val_spec);
        }
        let mut sheets_op: StringHashMap<String> = StringHashMap::new();
        let ghost sheets0 = sheets_op@;
        let sheets_val = String::from_str(CHEATSHEETS_URL_TEMPLATE);
        let ghost sheets_val_spec = sheets_val;
        sheets_op.insert(String::from_str("fetch"), sheets_val);
        proof {
            assert(map_view(sheets0) =~= Map::<Seq<char>, Seq<char>>::empty());
            lemma_map_view_insert(sheets0, "fetch"@, sheets_val_spec);
        }
        let mut entries: Vec<PlzMenuEntry> = Vec::new();
        entries.push(
            PlzMenuEntry { display_msg: String::from_str("Show man page"), operation: man_op },
        );
        entries.push(
            PlzMenuEntry {
                display_msg: String::from_str("Show cheat.sh page"),
                operation: cheat_op,
            },
        );
        entries.push(
            PlzMenuEntry { display_msg: String::from_str("Show eg page"), operation: eg_op },
        );
        entries.push(
            PlzMenuEntry {
                display_msg: String::from_str("Show cheatsheets page"),
                operation: sheets_op,
            },
        );
        PlzMenu { selected_pos: PlzMenuSelection::Center, entries }
    }
}

} // verus!
