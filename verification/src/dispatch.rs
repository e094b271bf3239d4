//! Builtin-versus-external dispatch for a single (non-piped) command.
//!
//! The builtin registry is a closed set of named handlers looked up by
//! command name. Dispatch resolves in order: a name that matches a builtin
//! verbatim wins; otherwise the command mapper is applied, and if the mapped
//! name matches a builtin that handler is chosen; otherwise the mapped name
//! is to be spawned as an external program. The decision is returned as
//! data — the surrounding program performs the handler call or the spawn.

use vstd::prelude::*;
use vstd::string::*;
use crate::command_execution::copy_args;
use crate::command_execution::spec_map_command;
use crate::platform::PlatformIdentity;
use crate::shell::Shell;
use crate::text;
use crate::text::str_eq;

verus! {

/// The closed set of builtin handlers, one variant per registered command.
#[derive(Clone, Copy, Debug, PartialEq, Eq, Structural)]
pub enum Builtin {
    /// `cd`: change the working directory.
    Cd,
    /// `echo`: print the arguments.
    Echo,
    /// `pwd`: print the working directory.
    Pwd,
    /// `type`: say whether a command is a builtin or an external program.
    TypeCmd,
    /// `ls`: list a directory.
    Ls,
    /// `clear`: clear the screen.
    Clear,
    /// `env`: print the environment snapshot.
    Env,
    /// `which`: print where a command resolves to.
    Which,
    /// `history`: print the command history.
    History,
    /// `source`: run commands from a file.
    Source,
    /// `cat`: print file contents.
    Cat,
    /// `mkdir`: create directories.
    Mkdir,
    /// `touch`: create files or refresh their timestamps.
    Touch,
    /// `grep`: print the lines of a file that contain a pattern.
    Grep,
    /// `find`: walk a directory tree, filtering names by a glob pattern.
    Find,
    /// `head`: print the first lines of a file.
    Head,
    /// `tail`: print the last lines of a file.
    Tail,
}

/// The registry lookup: which builtin, if any, is registered under `name`.
pub open spec fn spec_builtin_of_name(name: Seq<char>) -> Option<Builtin> {
    if name == "cd"@ {
        Some(Builtin::Cd)
    } else if name == "echo"@ {
        Some(Builtin::Echo)
    } else if name == "pwd"@ {
        Some(Builtin::Pwd)
    } else if name == "type"@ {
        Some(Builtin::TypeCmd)
    } else if name == "ls"@ {
        Some(Builtin::Ls)
    } else if name == "clear"@ {
        Some(Builtin::Clear)
    } else if name == "env"@ {
        Some(Builtin::Env)
    } else if name == "which"@ {
        Some(Builtin::Which)
    } else if name == "history"@ {
        Some(Builtin::History)
    } else if name == "source"@ {
        Some(Builtin::Source)
    } else if name == "cat"@ {
        Some(Builtin::Cat)
    } else if name == "mkdir"@ {
        Some(Builtin::Mkdir)
    } else if name == "touch"@ {
        Some(Builtin::Touch)
    } else if name == "grep"@ {
        Some(Builtin::Grep)
    } else if name == "find"@ {
        Some(Builtin::Find)
    } else if name == "head"@ {
        Some(Builtin::Head)
    } else if name == "tail"@ {
        Some(Builtin::Tail)
    } else {
        None
    }
}

/// Looks a command name up in the builtin registry.
pub fn builtin_of_name(name: &str) -> (r: Option<Builtin>)
    ensures
        r == spec_builtin_of_name(name@),
{
    if str_eq(name, "cd") {
        Some(Builtin::Cd)
    } else if str_eq(name, "echo") {
        Some(Builtin::Echo)
    } else if str_eq(name, "pwd") {
        Some(Builtin::Pwd)
    } else if str_eq(name, "type") {
        Some(Builtin::TypeCmd)
    } else if str_eq(name, "ls") {
        Some(Builtin::Ls)
    } else if str_eq(name, "clear") {
        Some(Builtin::Clear)
    } else if str_eq(name, "env") {
        Some(Builtin::Env)
    } else if str_eq(name, "which") {
        Some(Builtin::Which)
    } else if str_eq(name, "history") {
        Some(Builtin::History)
    } else if str_eq(name, "source") {
        Some(Builtin::Source)
    } else if str_eq(name, "cat") {
        Some(Builtin::Cat)
    } else if str_eq(name, "mkdir") {
        Some(Builtin::Mkdir)
    } else if str_eq(name, "touch") {
        Some(Builtin::Touch)
    } else if str_eq(name, "grep") {
        Some(Builtin::Grep)
    } else if str_eq(name, "find") {
        Some(Builtin::Find)
    } else if str_eq(name, "head") {
        Some(Builtin::Head)
    } else if str_eq(name, "tail") {
        Some(Builtin::Tail)
    } else {
        None
    }
}

/// What a dispatched single command should do, as data for the surrounding
/// program to carry out.
pub enum DispatchDecision {
    /// Invoke a builtin handler with these arguments; if a redirection target
    /// is present, the handler's output belongs in that file.
    Builtin { which: Builtin, args: Vec<String>, output_file: Option<String> },
    /// Spawn this external program with these arguments, in the shell's
    /// working directory with the shell's environment snapshot; if a
    /// redirection target is present, the process's captured standard output
    /// belongs in that file.
    External { name: String, args: Vec<String>, output_file: Option<String> },
}

/// The mathematical shape of a dispatch decision.
pub enum SpecDecision {
    Builtin { which: Builtin, args: Seq<Seq<char>>, output_file: Option<Seq<char>> },
    External { name: Seq<char>, args: Seq<Seq<char>>, output_file: Option<Seq<char>> },
}

impl View for DispatchDecision {
    type V = SpecDecision;

    open spec fn view(&self) -> SpecDecision {
        match self {
            DispatchDecision::Builtin { which, args, output_file } => SpecDecision::Builtin {
                which: *which,
                args: args.deep_view(),
                output_file: output_file.deep_view(),
            },
            DispatchDecision::External { name, args, output_file } => SpecDecision::External {
                name: name@,
                args: args.deep_view(),
                output_file: output_file.deep_view(),
            },
        }
    }
}

/// The dispatch rule: a verbatim builtin name wins; otherwise the command
/// mapper is applied and the mapped name is checked against the registry
/// again; what remains is an external spawn of the mapped command.
pub open spec fn spec_dispatch(
    platform: PlatformIdentity,
    name: Seq<char>,
    args: Seq<Seq<char>>,
    output_file: Option<Seq<char>>,
) -> SpecDecision {
    match spec_builtin_of_name(name) {
        Some(b) => SpecDecision::Builtin { which: b, args, output_file },
        None => {
            let (mapped_name, mapped_args) = spec_map_command(platform, name, args);
            match spec_builtin_of_name(mapped_name) {
                Some(b) => SpecDecision::Builtin {
                    which: b,
                    args: mapped_args,
                    output_file,
                },
                None => SpecDecision::External {
                    name: mapped_name,
                    args: mapped_args,
                    output_file,
                },
            }
        },
    }
}

impl Shell {
    /// Decides how a single command is to be carried out: by which builtin
    /// handler, or by spawning which external program. A builtin named
    /// verbatim is never mapped and never spawned.
    pub fn dispatch(&self, name: &str, args: &[String], output_file: Option<String>) -> (d:
        DispatchDecision)
        ensures
            d@ == spec_dispatch(self.shell_type, name@, args.deep_view(), output_file.deep_view()),
    {
        match builtin_of_name(name) {
            Some(b) => DispatchDecision::Builtin {
                which: b,
                args: copy_args(args),
                output_file,
            },
            None => {
                let (mapped_name, mapped_args) = self.map_command(name, args);
                match builtin_of_name(mapped_name.as_str()) {
                    Some(b) => DispatchDecision::Builtin {
                        which: b,
                        args: mapped_args,
                        output_file,
                    },
                    None => DispatchDecision::External {
                        name: mapped_name,
                        args: mapped_args,
                        output_file,
                    },
                }
            },
        }
    }
}

} // verus!
