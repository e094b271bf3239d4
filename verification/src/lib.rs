//! The command-line parser and execution planner of an interactive shell.
//!
//! A raw input line is tokenized (double quotes group, backslashes escape,
//! `|` separates), segmented into pipeline stages, and stripped of its
//! output redirection; a single command is dispatched to a builtin handler
//! or marked for an external spawn, with command names mapped to their
//! platform equivalents on the way; a multi-command line becomes a pipeline
//! plan that wires each stage's standard output into the next stage's
//! standard input. Every step is a pure function with an exact contract;
//! the surrounding program gathers host state, carries the plans out, and
//! performs all I/O.

mod builtins;
mod command_execution;
mod dispatch;
mod lines;
mod path;
mod pipeline;
mod platform;
mod shell;
mod text;
mod tokenize;

pub use builtins::{BuiltinIo, OutputSink};
pub use command_execution::CommandPlan;
pub use dispatch::{builtin_of_name, Builtin, DispatchDecision};
pub use lines::{filter_names, grep_lines, head_lines, tail_lines};
pub use pipeline::StagePlan;
pub use platform::{parse_shell_choice, PlatformIdentity};
pub use shell::{history_file_path, interpret_line, LineAction, Shell};
pub use text::{join_tokens, str_contains, str_eq, str_starts_with, trim_blanks};
pub use tokenize::{segment, tokenize};
