//! Which command directories a run loads.
use vstd::prelude::*;

use crate::cli::{clone_strings, strings_view, Cli, CliCommand};

verus! {

/// The directories a matcher is loaded from: `list-commands` given explicit
/// directories loads exactly those; otherwise the layered directories
/// (system, user, then the command line's).
pub fn matcher_dirs(cli: &Cli, layered: &Vec<String>) -> (r: Vec<String>)
    ensures
        strings_view(r@) == if cli.command == CliCommand::ListCommands && cli.config_dirs@.len()
            > 0 {
            strings_view(cli.config_dirs@)
        } else {
            strings_view(layered@)
        },
{
    if cli.command == CliCommand::ListCommands && cli.config_dirs.len() > 0 {
        clone_strings(&cli.config_dirs)
    } else {
        clone_strings(layered)
    }
}

} // verus!
