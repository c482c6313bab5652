//! Configuration.
//!
//! The configuration value itself and its built-in default are defined and
//! verified here.  Discovering, reading and writing the configuration file
//! is filesystem I/O and lives outside the verified library, which only
//! ever sees a finished `Config` value.

use vstd::prelude::*;

use crate::common::ArgDisplay;
use crate::common::HelpArg;
use crate::common::VersionArg;
use crate::common::help_arg_reprs;
use crate::common::version_arg_reprs;
use crate::providers::DEFAULT_CHEATSHEETS_PROVIDER;
use crate::providers::DEFAULT_CHEAT_SHEET_PROVIDER;
use crate::providers::DEFAULT_EG_PAGES_PROVIDER;
use crate::strutil::strings_view;

verus! {

/// Configuration.
#[derive(Debug, Clone, PartialEq)]
pub struct Config {
    /// Check the version flag.
    pub check_version: bool,
    /// Check the help flag.
    pub check_help: bool,
    /// Arguments to check, as groups probed in order.
    pub check_args: Option<Vec<Vec<String>>>,
    /// Command to run for manual pages.
    pub man_command: String,
    /// Pager to use for command outputs, `None` to disable.
    pub pager_command: Option<String>,
    /// Use a custom URL for cheat.sh.
    pub cheat_sh_url: Option<String>,
    /// Use a custom URL for the `eg` pages provider.
    pub eg_url: Option<String>,
    /// Use a custom URL for the cheatsheets provider.
    pub cheatsheets_url: Option<String>,
    /// Timeout for running the commands, in seconds.
    pub timeout: Option<u64>,
}

/// The groups of arguments that one probe run tries, in order: the first
/// configured group when version checking is on, then the second when help
/// checking is on and a second group exists.
pub open spec fn probe_groups(groups: Seq<Vec<String>>, check_version: bool, check_help: bool)
    -> Seq<Seq<String>> {
    (if check_version && groups.len() >= 1 {
        seq![groups[0]@]
    } else {
        Seq::<Seq<String>>::empty()
    }) + (if check_help && groups.len() >= 2 {
        seq![groups[1]@]
    } else {
        Seq::<Seq<String>>::empty()
    })
}

/// Copies a group of argument strings.
fn clone_group(group: &Vec<String>) -> (r: Vec<String>)
    ensures
        r@ == group@,
{
    let mut r: Vec<String> = Vec::new();
    let mut i: usize = 0;
    while i < group.len()
        invariant
            i <= group@.len(),
            r@ == group@.take(i as int),
        decreases group@.len() - i,
    {
        r.push(group[i].clone());
        i = i + 1;
        proof {
            assert(group@.take(i as int) =~= group@.take(i as int - 1).push(
                group@[i as int - 1],
            ));
        }
    }
    proof {
        assert(group@.take(group@.len() as int) =~= group@);
    }
    r
}

impl Config {
    /// The argument groups that a probe run checks, as [`probe_groups`]
    /// states: the version group when version checking is on, then the
    /// help group when help checking is on and a second group exists;
    /// nothing when no groups are configured.
    pub fn groups_to_check(&self) -> (r: Vec<Vec<String>>)
        ensures
            (match self.check_args {
                None => r@.len() == 0,
                Some(groups) => r@.map_values(|g: Vec<String>| g@) == probe_groups(
                    groups@,
                    self.check_version,
                    self.check_help,
                ),
            }),
    {
        let mut r: Vec<Vec<String>> = Vec::new();
        if let Some(groups) = &self.check_args {
            if groups.len() >= 1 && self.check_version {
                r.push(clone_group(&groups[0]));
            }
            if groups.len() >= 2 && self.check_help {
                r.push(clone_group(&groups[1]));
            }
            proof {
                assert(r@.map_values(|g: Vec<String>| g@) =~= probe_groups(
                    groups@,
                    self.check_version,
                    self.check_help,
                ));
            }
        }
        r
    }
}

impl Default for Config {
    /// The built-in configuration: check the version then the help flag
    /// spellings, show manual pages with `man`, page output through
    /// `less -R`, ask the default providers, and give probed commands five
    /// seconds.
    fn default() -> (r: Config)
        ensures
            r.check_version,
            r.check_help,
            (r.check_args matches Some(groups) && groups@.len() == 2 && strings_view(groups@[0]@)
                == version_arg_reprs() && strings_view(groups@[1]@) == help_arg_reprs()),
            r.man_command@ == "man"@,
            (r.pager_command matches Some(p) && p@ == "less -R"@),
            (r.cheat_sh_url matches Some(u) && u@ == DEFAULT_CHEAT_SHEET_PROVIDER@),
            (r.eg_url matches Some(u) && u@ == DEFAULT_EG_PAGES_PROVIDER@),
            (r.cheatsheets_url matches Some(u) && u@ == DEFAULT_CHEATSHEETS_PROVIDER@),
            r.timeout == Some(5u64),
    {
        let version_variants = VersionArg::variants();
        let mut version_group: Vec<String> = Vec::new();
        version_group.push(String::from_str(version_variants[0].as_str()));
        version_group.push(String::from_str(version_variants[1].as_str()));
        version_group.push(String::from_str(version_variants[2].as_str()));
        version_group.push(String::from_str(version_variants[3].as_str()));
        proof {
            assert(strings_view(version_group@) =~= version_arg_reprs());
        }
        let help_variants = HelpArg::variants();
        let mut help_group: Vec<String> = Vec::new();
        help_group.push(String::from_str(help_variants[0].as_str()));
        help_group.push(String::from_str(help_variants[1].as_str()));
        help_group.push(String::from_str(help_variants[2].as_str()));
        help_group.push(String::from_str(help_variants[3].as_str()));
        proof {
            assert(strings_view(help_group@) =~= help_arg_reprs());
        }
        let mut groups: Vec<Vec<String>> = Vec::new();
        groups.push(version_group);
        groups.push(help_group);
        Config {
            check_version: true,
            check_help: true,
            check_args: Some(groups),
            man_command: String::from_str("man"),
            pager_command: Some(String::from_str("less -R")),
            cheat_sh_url: Some(String::from_str(DEFAULT_CHEAT_SHEET_PROVIDER)),
            eg_url: Some(String::from_str(DEFAULT_EG_PAGES_PROVIDER)),
            cheatsheets_url: Some(String::from_str(DEFAULT_CHEATSHEETS_PROVIDER)),
            timeout: Some(5),
        }
    }
}

} // verus!
