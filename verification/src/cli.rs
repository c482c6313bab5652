//! Command-line argument data and how it updates the configuration.
//!
//! Reading the arguments from the process command line is done outside the
//! verified library; the values land in the plain [`CliArgs`] record
//! defined here.  What is verified is the argument unescaping and exactly
//! how the arguments override the configuration.

use vstd::prelude::*;

use crate::config::Config;
use crate::strutil::string_from_chars;

verus! {

/// Command-line arguments.
#[derive(Debug, Default)]
pub struct CliArgs {
    /// Command or binary name.
    pub cmd: Option<String>,
    /// Sets the arguments to check.
    pub check_args: Option<Vec<String>>,
    /// Disable checking the version information.
    pub no_version: bool,
    /// Disable checking the help information.
    pub no_help: bool,
    /// Sets the configuration file.
    pub config: Option<String>,
    /// Sets the timeout for the command, in seconds.
    pub timeout: Option<u64>,
    /// Enables verbose logging.
    pub verbose: bool,
    /// Subcommands.
    pub subcommand: Option<CliCommands>,
}

/// Subcommands.
#[derive(Debug)]
pub enum CliCommands {
    /// Get additional help.
    Plz {
        /// Command or binary name.
        cmd: String,
        /// Sets the manual page command to run.
        man_cmd: Option<String>,
        /// Use a custom URL for cheat.sh.
        cheat_sh_url: Option<String>,
        /// Use a custom provider URL for `eg` pages.
        eg_url: Option<String>,
        /// Use a custom URL for cheat sheets.
        cheat_url: Option<String>,
        /// Sets the pager to use.
        pager: Option<String>,
        /// Disables the pager.
        no_pager: bool,
    },
}

/// `s` with every `\-` pair replaced by a single `-`, scanning left to
/// right.
pub open spec fn unescape_dashes(s: Seq<char>) -> Seq<char>
    decreases s.len(),
{
    if s.len() == 0 {
        Seq::<char>::empty()
    } else if s.len() >= 2 && s[0] == '\\' && s[1] == '-' {
        seq!['-'] + unescape_dashes(s.skip(2))
    } else {
        seq![s[0]] + unescape_dashes(s.skip(1))
    }
}

impl CliArgs {
    /// Custom argument parser for escaping the `-` character: every `\-`
    /// becomes `-`.  It never fails; the `Result` mirrors the parser
    /// interface of the surrounding program.
    pub fn parse_arg(arg: &str) -> (r: Result<String, String>)
        ensures
            (r matches Ok(s) && s@ == unescape_dashes(arg@)),
    {
        let n = arg.unicode_len();
        let mut out: Vec<char> = Vec::new();
        let mut i: usize = 0;
        proof {
            assert(arg@.skip(0) =~= arg@);
        }
        while i < n
            invariant
                n == arg@.len(),
                i <= n,
                unescape_dashes(arg@) == out@ + unescape_dashes(arg@.skip(i as int)),
            decreases n - i,
        {
            let ghost s = arg@.skip(i as int);
            let ghost old_out = out@;
            let c = arg.get_char(i);
            proof {
                assert(s[0] == c);
                assert(s.skip(1) =~= arg@.skip(i as int + 1));
            }
            if c == '\\' && i + 1 < n && arg.get_char(i + 1) == '-' {
                proof {
                    assert(s[1] == arg@[i as int + 1]);
                    assert(s.skip(2) =~= arg@.skip(i as int + 2));
                }
                out.push('-');
                i = i + 2;
                proof {
                    assert(old_out + (seq!['-'] + unescape_dashes(arg@.skip(i as int))) =~= out@
                        + unescape_dashes(arg@.skip(i as int)));
                }
            } else {
                proof {
                    if c == '\\' && i + 1 < n {
                        assert(s[1] == arg@[i as int + 1]);
                    }
                }
                out.push(c);
                i = i + 1;
                proof {
                    assert(old_out + (seq![c] + unescape_dashes(arg@.skip(i as int))) =~= out@
                        + unescape_dashes(arg@.skip(i as int)));
                }
            }
        }
        proof {
            assert(arg@.skip(n as int) =~= Seq::<char>::empty());
            assert(out@ + Seq::<char>::empty() =~= out@);
        }
        Ok(string_from_chars(&out))
    }

    /// The manual page command after the update: the `plz` subcommand's
    /// `man_cmd` if one was given, otherwise the old value.
    pub open spec fn man_command_after(&self, old_cmd: String) -> String {
        match self.subcommand {
            Some(CliCommands::Plz { man_cmd: Some(mc), .. }) => mc,
            _ => old_cmd,
        }
    }

    /// The cheat.sh URL after the update: the `plz` subcommand's
    /// `cheat_sh_url` if one was given, otherwise the old value.
    pub open spec fn cheat_sh_url_after(&self, old_url: Option<String>) -> Option<String> {
        match self.subcommand {
            Some(CliCommands::Plz { cheat_sh_url: Some(u), .. }) => Some(u),
            _ => old_url,
        }
    }

    /// The `eg` pages URL after the update: the `plz` subcommand's `eg_url`
    /// if one was given, otherwise the old value.
    pub open spec fn eg_url_after(&self, old_url: Option<String>) -> Option<String> {
        match self.subcommand {
            Some(CliCommands::Plz { eg_url: Some(u), .. }) => Some(u),
            _ => old_url,
        }
    }

    /// The pager after the update: disabled by `--no-pager`, replaced by an
    /// explicit `--pager`, otherwise the old value.
    pub open spec fn pager_after(&self, old_pager: Option<String>) -> Option<String> {
        match self.subcommand {
            Some(CliCommands::Plz { no_pager, pager, .. }) => if no_pager {
                None
            } else if pager is Some {
                pager
            } else {
                old_pager
            },
            None => old_pager,
        }
    }

    /// Update the configuration based on the command-line arguments (the
    /// command-line arguments will override the configuration).
    ///
    /// The `--check` arguments replace the configured groups with singleton
    /// groups, one per argument; a `--timeout` replaces the configured
    /// timeout; the `plz` options replace the manual page command, the
    /// provider URLs and the pager as [`Self::man_command_after`],
    /// [`Self::cheat_sh_url_after`], [`Self::eg_url_after`] and
    /// [`Self::pager_after`] state.  The cheatsheets URL is never touched.
    pub fn update_config(&self, config: &mut Config)
        ensures
            final(config).check_help == !self.no_help,
            final(config).check_version == !self.no_version,
            (match self.check_args {
                Some(args) => (final(config).check_args matches Some(groups) && groups@.len()
                    == args@.len() && (forall|i: int|
                    0 <= i < args@.len() ==> (#[trigger] groups@[i])@.len() == 1 && groups@[i]@[0]@
                        == args@[i]@)),
                None => final(config).check_args == old(config).check_args,
            }),
            final(config).timeout == (if self.timeout is Some {
                self.timeout
            } else {
                old(config).timeout
            }),
            final(config).man_command == self.man_command_after(old(config).man_command),
            final(config).cheat_sh_url == self.cheat_sh_url_after(old(config).cheat_sh_url),
            final(config).eg_url == self.eg_url_after(old(config).eg_url),
            final(config).pager_command == self.pager_after(old(config).pager_command),
            final(config).cheatsheets_url == old(config).cheatsheets_url,
    {
        config.check_help = !self.no_help;
        config.check_version = !self.no_version;
        if let Some(args) = &self.check_args {
            let mut groups: Vec<Vec<String>> = Vec::new();
            let mut i: usize = 0;
            while i < args.len()
                invariant
                    i <= args@.len(),
                    groups@.len() == i,
                    forall|j: int|
                        0 <= j < i ==> (#[trigger] groups@[j])@.len() == 1 && groups@[j]@[0]@
                            == args@[j]@,
                decreases args@.len() - i,
            {
                let mut group: Vec<String> = Vec::new();
                group.push(args[i].clone());
                groups.push(group);
                i = i + 1;
            }
            config.check_args = Some(groups);
        }
        if self.timeout.is_some() {
            config.timeout = self.timeout;
        }
        if let Some(CliCommands::Plz { man_cmd, cheat_sh_url, eg_url, no_pager, pager, .. }) =
            &self.subcommand {
            if let Some(mc) = man_cmd {
                config.man_command = mc.clone();
            }
            if let Some(u) = cheat_sh_url {
                config.cheat_sh_url = Some(u.clone());
            }
            if let Some(u) = eg_url {
                config.eg_url = Some(u.clone());
            }
            if *no_pager {
                config.pager_command = None;
            } else if let Some(p) = pager {
                config.pager_command = Some(p.clone());
            }
        }
    }
}

} // verus!
