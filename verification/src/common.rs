//! Help and version check variants used when probing a binary, including
//! the subcommand spellings.

use vstd::prelude::*;

verus! {

/// Display trait for an argument.
pub trait ArgDisplay {
    /// The characters of the string representation.
    spec fn repr(&self) -> Seq<char>;

    /// Returns the string representation.
    fn as_str(&self) -> (r: &'static str)
        ensures
            r@ == self.repr(),
    ;
}

/// The string representations of the version argument variants, in probing
/// order.
pub open spec fn version_arg_reprs() -> Seq<Seq<char>> {
    seq!["-v"@, "-V"@, "--version"@, "version"@]
}

/// The string representations of the help argument variants, in probing
/// order.
pub open spec fn help_arg_reprs() -> Seq<Seq<char>> {
    seq!["-h"@, "--help"@, "help"@, "-H"@]
}

/// Version argument.
#[derive(Clone, Copy, Debug, PartialEq, Eq)]
pub enum VersionArg {
    /// `-v`
    Version,
    /// `-V`
    CapitalVersion,
    /// `--version`
    LongVersion,
    /// `version`
    SubcommandVersion,
}

impl VersionArg {
    /// Returns the variants, in the order they are probed.
    pub fn variants() -> (r: Vec<VersionArg>)
        ensures
            r@ == seq![
                VersionArg::Version,
                VersionArg::CapitalVersion,
                VersionArg::LongVersion,
                VersionArg::SubcommandVersion,
            ],
            r@.len() == version_arg_reprs().len(),
            forall|i: int|
                0 <= i < r@.len() ==> (#[trigger] r@[i]).repr() == version_arg_reprs()[i],
    {
        let mut v: Vec<VersionArg> = Vec::new();
        v.push(VersionArg::Version);
        v.push(VersionArg::CapitalVersion);
        v.push(VersionArg::LongVersion);
        v.push(VersionArg::SubcommandVersion);
        proof {
            assert(v@ =~= seq![
                VersionArg::Version,
                VersionArg::CapitalVersion,
                VersionArg::LongVersion,
                VersionArg::SubcommandVersion,
            ]);
        }
        v
    }
}

impl ArgDisplay for VersionArg {
    open spec fn repr(&self) -> Seq<char> {
        match self {
            VersionArg::Version => "-v"@,
            VersionArg::CapitalVersion => "-V"@,
            VersionArg::LongVersion => "--version"@,
            VersionArg::SubcommandVersion => "version"@,
        }
    }

    fn as_str(&self) -> (r: &'static str) {
        match self {
            VersionArg::Version => "-v",
            VersionArg::CapitalVersion => "-V",
            VersionArg::LongVersion => "--version",
            VersionArg::SubcommandVersion => "version",
        }
    }
}

/// Help argument.
#[derive(Clone, Copy, Debug, PartialEq, Eq)]
pub enum HelpArg {
    /// `-h`
    Help,
    /// `--help`
    LongHelp,
    /// `help`
    SubcommandHelp,
    /// `-H`
    CapitalHelp,
}

impl HelpArg {
    /// Returns the variants, in the order they are probed.
    pub fn variants() -> (r: Vec<HelpArg>)
        ensures
            r@ == seq![
                HelpArg::Help,
                HelpArg::LongHelp,
                HelpArg::SubcommandHelp,
                HelpArg::CapitalHelp,
            ],
            r@.len() == help_arg_reprs().len(),
            forall|i: int| 0 <= i < r@.len() ==> (#[trigger] r@[i]).repr() == help_arg_reprs()[i],
    {
        let mut v: Vec<HelpArg> = Vec::new();
        v.push(HelpArg::Help);
        v.push(HelpArg::LongHelp);
        v.push(HelpArg::SubcommandHelp);
        v.push(HelpArg::CapitalHelp);
        proof {
            assert(v@ =~= seq![
                HelpArg::Help,
                HelpArg::LongHelp,
                HelpArg::SubcommandHelp,
                HelpArg::CapitalHelp,
            ]);
        }
        v
    }
}

impl ArgDisplay for HelpArg {
    open spec fn repr(&self) -> Seq<char> {
        match self {
            HelpArg::Help => "-h"@,
            HelpArg::LongHelp => "--help"@,
            HelpArg::SubcommandHelp => "help"@,
            HelpArg::CapitalHelp => "-H"@,
        }
    }

    fn as_str(&self) -> (r: &'static str) {
        match self {
            HelpArg::Help => "-h",
            HelpArg::LongHelp => "--help",
            HelpArg::SubcommandHelp => "help",
            HelpArg::CapitalHelp => "-H",
        }
    }
}

} // verus!
