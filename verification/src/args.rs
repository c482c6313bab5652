//! Argument variants used for the default checks: the common spellings of
//! the version and help flags.

use vstd::prelude::*;

verus! {

/// Display trait for an argument.
pub trait ArgDisplay {
    /// The characters of the string representation.
    spec fn repr(&self) -> Seq<char>;

    /// Returns the string representation.
    fn as_str(&self) -> (r: &'static str)
        ensures
            r@ == self.repr(),
    ;
}

/// Version argument.
#[derive(Clone, Copy, Debug, PartialEq, Eq)]
pub enum VersionArg {
    /// `-v`
    Version,
    /// `-V`
    CapitalVersion,
    /// `--version`
    LongVersion,
}

impl VersionArg {
    /// Returns the variants, in the order they are probed.
    pub fn variants() -> (r: Vec<VersionArg>)
        ensures
            r@ == seq![
                VersionArg::Version,
                VersionArg::CapitalVersion,
                VersionArg::LongVersion,
            ],
    {
        let mut v: Vec<VersionArg> = Vec::new();
        v.push(VersionArg::Version);
        v.push(VersionArg::CapitalVersion);
        v.push(VersionArg::LongVersion);
        proof {
            assert(v@ =~= seq![
                VersionArg::Version,
                VersionArg::CapitalVersion,
                VersionArg::LongVersion,
            ]);
        }
        v
    }
}

impl ArgDisplay for VersionArg {
    open spec fn repr(&self) -> Seq<char> {
        match self {
            VersionArg::Version => "-v"@,
            VersionArg::CapitalVersion => "-V"@,
            VersionArg::LongVersion => "--version"@,
        }
    }

    fn as_str(&self) -> (r: &'static str) {
        match self {
            VersionArg::Version => "-v",
            VersionArg::CapitalVersion => "-V",
            VersionArg::LongVersion => "--version",
        }
    }
}

/// Help argument.
#[derive(Clone, Copy, Debug, PartialEq, Eq)]
pub enum HelpArg {
    /// `-h`
    Help,
    /// `--help`
    LongHelp,
    /// `-H`
    CapitalHelp,
}

impl HelpArg {
    /// Returns the variants, in the order they are probed.
    pub fn variants() -> (r: Vec<HelpArg>)
        ensures
            r@ == seq![HelpArg::Help, HelpArg::LongHelp, HelpArg::CapitalHelp],
    {
        let mut v: Vec<HelpArg> = Vec::new();
        v.push(HelpArg::Help);
        v.push(HelpArg::LongHelp);
        v.push(HelpArg::CapitalHelp);
        proof {
            assert(v@ =~= seq![HelpArg::Help, HelpArg::LongHelp, HelpArg::CapitalHelp]);
        }
        v
    }
}

impl ArgDisplay for HelpArg {
    open spec fn repr(&self) -> Seq<char> {
        match self {
            HelpArg::Help => "-h"@,
            HelpArg::LongHelp => "--help"@,
            HelpArg::CapitalHelp => "-H"@,
        }
    }

    fn as_str(&self) -> (r: &'static str) {
        match self {
            HelpArg::Help => "-h",
            HelpArg::LongHelp => "--help",
            HelpArg::CapitalHelp => "-H",
        }
    }
}

} // verus!
