use vstd::prelude::*;

use crate::config::Config;

verus! {

/// The four deletion strategies, one for each combination of the two flags.
#[derive(Clone, Copy, Debug, PartialEq, Eq, Structural)]
pub enum Modes {
    /// No flag: ask, then remove a file or an empty directory.
    Standard,
    /// Both flags: remove anything, contents included, without asking or failing.
    RecursivelyAndForce,
    /// `r` alone: ask, then remove a file or a directory with its contents.
    OnlyRecursively,
    /// `f` alone: remove a file or an empty directory without asking or failing.
    OnlyForce,
}

/// The mode that the flags `recursively` and `force` select.
pub open spec fn mode_of(recursively: bool, force: bool) -> Modes {
    if recursively && force {
        Modes::RecursivelyAndForce
    } else if force {
        Modes::OnlyForce
    } else if recursively {
        Modes::OnlyRecursively
    } else {
        Modes::Standard
    }
}

/// Resolves the deletion mode of a parsed invocation.
pub fn get_mode(config: &Config) -> (m: Modes)
    ensures
        m == mode_of(config.recursively, config.force),
{
    if config.recursively && config.force {
        Modes::RecursivelyAndForce
    } else if config.force {
        Modes::OnlyForce
    } else if config.recursively {
        Modes::OnlyRecursively
    } else {
        Modes::Standard
    }
}

} // verus!
