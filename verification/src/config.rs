//! The resolved configuration of a run.

use vstd::prelude::*;

verus! {

/// The depth ceiling of a run that names none.
pub const DEFAULT_DEPTH: usize = 5;

/// What a run looks at.
#[derive(Clone, Copy, Debug, PartialEq, Eq, Structural)]
pub enum Target {
    /// The entries of a root directory.
    Root,
    /// One file.
    File,
    /// Nothing: the table of such a run is empty.
    Nothing,
}

/// The configuration of a run, as the collector and the renderer take it.
#[derive(Clone, Copy, Debug, PartialEq, Eq, Structural)]
pub struct Config {
    pub target: Target,
    /// The depth ceiling of every walk.
    pub max_depth: usize,
    /// Whether only names and sizes are shown, without a header.
    pub clean: bool,
    /// Whether the smallest entry comes first.
    pub reverse: bool,
}

/// The target of a run: the root where one was given, else the file
/// where one was given, else nothing.
pub open spec fn target_of(root_given: bool, file_given: bool) -> Target {
    if root_given {
        Target::Root
    } else if file_given {
        Target::File
    } else {
        Target::Nothing
    }
}

/// The depth ceiling that stands for `requested`: a negative number asks
/// for no ceiling, which is the largest depth that the machine can count;
/// a number beyond that is held to it.
pub open spec fn ceiling_of(requested: int) -> nat {
    if 0 <= requested <= usize::MAX {
        requested as nat
    } else {
        usize::MAX as nat
    }
}

/// Decides what a run looks at: a root takes precedence over a file.
pub fn choose_target(root_given: bool, file_given: bool) -> (target: Target)
    ensures
        target == target_of(root_given, file_given),
{
    if root_given {
        Target::Root
    } else if file_given {
        Target::File
    } else {
        Target::Nothing
    }
}

/// Turns the depth that was asked for into a ceiling.
pub fn resolve_depth(requested: i64) -> (ceiling: usize)
    ensures
        ceiling as nat == ceiling_of(requested as int),
{
    if requested < 0 {
        usize::MAX
    } else {
        let wide = requested as u64;
        if wide > usize::MAX as u64 {
            usize::MAX
        } else {
            wide as usize
        }
    }
}

impl Default for Config {
    /// The configuration of a run that was asked for nothing: no target,
    /// the default ceiling, the full table, largest entry first.
    fn default() -> (config: Config)
        ensures
            config == (Config {
                target: Target::Nothing,
                max_depth: DEFAULT_DEPTH,
                clean: false,
                reverse: false,
            }),
    {
        Config { target: Target::Nothing, max_depth: DEFAULT_DEPTH, clean: false, reverse: false }
    }
}

impl Config {
    /// Resolves what was asked for into the configuration of the run.
    pub fn resolve(root_given: bool, file_given: bool, depth: i64, clean: bool, reverse: bool) -> (config:
        Config)
        ensures
            config.target == target_of(root_given, file_given),
            config.max_depth as nat == ceiling_of(depth as int),
            config.clean == clean,
            config.reverse == reverse,
    {
        Config {
            target: choose_target(root_given, file_given),
            max_depth: resolve_depth(depth),
            clean,
            reverse,
        }
    }
}

} // verus!
