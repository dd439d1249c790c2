//! The subcommands of the `rustv` program.

use vstd::prelude::*;

verus! {

/// The command line of `rustv`, as its usage text parses it: which
/// subcommand was given, and the version and tool names that follow it.
pub struct Args {
    pub cmd_install: bool,
    pub cmd_which: bool,
    pub cmd_global: bool,
    pub cmd_refresh: bool,
    pub cmd_versions: bool,
    pub arg_version: String,
    pub arg_command: String,
}

/// A subcommand of `rustv`.
#[derive(Debug, Clone, Copy, PartialEq, Eq, Structural)]
pub enum Command {
    Install,
    Which,
    Global,
    Refresh,
    Versions,
}

/// Whether `args` names a subcommand at all.
pub open spec fn names_a_command(args: Args) -> bool {
    args.cmd_install || args.cmd_which || args.cmd_global || args.cmd_refresh || args.cmd_versions
}

/// The subcommand that `args` names, by the first of its flags that is set, in
/// the order install, which, global, refresh, versions.
pub open spec fn spec_command(args: Args) -> Command {
    if args.cmd_install {
        Command::Install
    } else if args.cmd_which {
        Command::Which
    } else if args.cmd_global {
        Command::Global
    } else if args.cmd_refresh {
        Command::Refresh
    } else {
        Command::Versions
    }
}

/// The subcommand to run. The program aborts with "unsupported command" where
/// no subcommand is named; this function asks for one.
pub fn get_command(args: &Args) -> (r: Command)
    requires
        names_a_command(*args),
    ensures
        r == spec_command(*args),
{
    if args.cmd_install {
        Command::Install
    } else if args.cmd_which {
        Command::Which
    } else if args.cmd_global {
        Command::Global
    } else if args.cmd_refresh {
        Command::Refresh
    } else {
        Command::Versions
    }
}

} // verus!

verus! {

/// The subcommand run is the first one named, in the order install, which,
/// global, refresh, versions: it is named, and no subcommand before it is.
pub proof fn law_first_named_command_runs(args: Args)
    requires
        names_a_command(args),
    ensures
        (spec_command(args) == Command::Install) <==> args.cmd_install,
        (spec_command(args) == Command::Which) <==> (!args.cmd_install && args.cmd_which),
        (spec_command(args) == Command::Global) <==> (!args.cmd_install && !args.cmd_which
            && args.cmd_global),
        (spec_command(args) == Command::Refresh) <==> (!args.cmd_install && !args.cmd_which
            && !args.cmd_global && args.cmd_refresh),
        (spec_command(args) == Command::Versions) <==> (!args.cmd_install && !args.cmd_which
            && !args.cmd_global && !args.cmd_refresh && args.cmd_versions),
{
}

} // verus!
