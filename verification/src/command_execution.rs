//! Parsing methods of the shell: tokenization, pipeline segmentation, and
//! output-redirection extraction.
//!
//! Each method is a thin entry point over the verified components, so the
//! shell's parsing surface matches its dispatch surface.

use vstd::prelude::*;
use vstd::string::*;
use crate::dispatch::{spec_dispatch, DispatchDecision};
use crate::pipeline::{pipeline_plan_matches, tail_args, StagePlan};
use crate::platform::PlatformIdentity;
use crate::shell::Shell;
use crate::text::str_eq;
use crate::tokenize;

verus! {

/// What a whole input line amounts to: nothing, one dispatched command, or a
/// multi-stage pipeline. The surrounding program carries the plan out.
pub enum CommandPlan {
    /// Nothing to run: no tokens, or a redirection with no command left.
    Empty,
    /// A single (non-piped) command, already dispatched.
    Single { decision: DispatchDecision },
    /// A multi-stage pipeline, one external stage per segment.
    Pipeline { stages: Vec<StagePlan> },
}

/// Whether `plan` is the correct plan for the raw input line: the line is
/// tokenized and segmented; no segment plans nothing; a single segment has
/// its redirection extracted and is dispatched; several segments become a
/// pipeline plan. Redirection is only recognized on a single (non-piped)
/// command.
pub open spec fn command_plan_matches(
    platform: PlatformIdentity,
    line: Seq<char>,
    plan: CommandPlan,
) -> bool {
    let segs = tokenize::spec_segment(tokenize::spec_tokenize(line));
    if segs.len() == 0 {
        plan is Empty
    } else if segs.len() == 1 {
        let (plain, out) = spec_extract_redirection(segs[0]);
        if plain.len() == 0 {
            plan is Empty
        } else {
            plan matches CommandPlan::Single { decision } && decision@ == spec_dispatch(
                platform,
                plain[0],
                plain.drop_first(),
                out,
            )
        }
    } else {
        plan matches CommandPlan::Pipeline { stages } && pipeline_plan_matches(
            platform,
            segs,
            stages@,
        )
    }
}

/// The platform-appropriate executable name and argument list for a command.
///
/// A static alias table: common Unix and Windows command names are mapped
/// onto each other depending on the platform identity, a few with fixed
/// replacement arguments (`ls` and `clear` go through `cmd /C` on the
/// Windows-like platform, `touch` becomes an `echo`-redirection idiom there,
/// and the kill aliases prepend a forced-termination flag). Any name without
/// a table entry passes through unchanged, with its original arguments.
pub open spec fn spec_map_command(
    platform: PlatformIdentity,
    command: Seq<char>,
    args: Seq<Seq<char>>,
) -> (Seq<char>, Seq<Seq<char>>) {
    match platform {
        PlatformIdentity::WindowsLike => {
            if command == "ls"@ {
                ("cmd"@, seq!["/C"@, "dir"@, "/W"@])
            } else if command == "clear"@ {
                ("cmd"@, seq!["/C"@, "cls"@])
            } else if command == "rm"@ {
                ("del"@, args)
            } else if command == "cp"@ {
                ("copy"@, args)
            } else if command == "mv"@ {
                ("move"@, args)
            } else if command == "cat"@ {
                ("type"@, args)
            } else if command == "grep"@ {
                ("findstr"@, args)
            } else if command == "touch"@ {
                ("echo"@, seq!["NUL"@, ">"@] + args)
            } else if command == "chmod"@ {
                ("icacls"@, args)
            } else if command == "ps"@ {
                ("tasklist"@, Seq::empty())
            } else if command == "kill"@ {
                ("taskkill"@, seq!["/PID"@] + args)
            } else {
                (command, args)
            }
        },
        PlatformIdentity::Unix | PlatformIdentity::MacLike => {
            if command == "dir"@ {
                ("ls"@, Seq::empty())
            } else if command == "cls"@ {
                ("clear"@, Seq::empty())
            } else if command == "copy"@ {
                ("cp"@, args)
            } else if command == "move"@ {
                ("mv"@, args)
            } else if command == "del"@ {
                ("rm"@, args)
            } else if command == "type"@ {
                ("cat"@, args)
            } else if command == "findstr"@ {
                ("grep"@, args)
            } else if command == "tasklist"@ {
                ("ps"@, seq!["-e"@])
            } else if command == "taskkill"@ {
                ("kill"@, seq!["-9"@] + args)
            } else {
                (command, args)
            }
        },
    }
}

/// Copies a borrowed argument list into an owned one.
pub(crate) fn copy_args(args: &[String]) -> (r: Vec<String>)
    ensures
        r.deep_view() == args.deep_view(),
{
    let ghost full = args.deep_view();
    let mut r: Vec<String> = Vec::new();
    proof {
        assert(r.deep_view() =~= full.take(0));
    }
    let mut i: usize = 0;
    while i < args.len()
        invariant
            full == args.deep_view(),
            full.len() == args@.len(),
            forall|j: int| 0 <= j < full.len() ==> full[j] == args[j]@,
            i <= args@.len(),
            r.deep_view() == full.take(i as int),
        decreases args@.len() - i,
    {
        let ghost pre = r.deep_view();
        r.push(args[i].clone());
        proof {
            assert(r.deep_view() =~= pre.push(full[i as int]));
            assert(full.take(i + 1) =~= full.take(i as int).push(full[i as int]));
        }
        i = i + 1;
    }
    proof {
        assert(full.take(full.len() as int) =~= full);
    }
    r
}

/// Builds the pair for a table entry that renames the command and keeps the
/// arguments.
fn renamed(name: &str, args: &[String]) -> (r: (String, Vec<String>))
    ensures
        r.0@ == name@,
        r.1.deep_view() == args.deep_view(),
{
    (String::from_str(name), copy_args(args))
}

/// Builds the pair for a table entry that renames the command and prepends
/// one fixed flag to the arguments.
fn renamed_with_flag(name: &str, flag: &str, args: &[String]) -> (r: (String, Vec<String>))
    ensures
        r.0@ == name@,
        r.1.deep_view() == seq![flag@] + args.deep_view(),
{
    let mut v: Vec<String> = Vec::new();
    v.push(String::from_str(flag));
    let ghost pre = v.deep_view();
    let mut rest = copy_args(args);
    let ghost rest_view = rest.deep_view();
    v.append(&mut rest);
    proof {
        assert(pre =~= seq![flag@]);
        assert(v.deep_view() =~= pre + rest_view);
    }
    (String::from_str(name), v)
}

/// The literal `>` token that introduces an output redirection.
pub open spec fn gt_token() -> Seq<char> {
    seq!['>']
}

/// Scans an argument list for `>` followed by a file name. Both tokens are
/// removed and the file name is remembered; a later occurrence overwrites an
/// earlier one, and a trailing bare `>` is kept as an ordinary argument.
pub open spec fn extract_from(
    args: Seq<Seq<char>>,
    kept: Seq<Seq<char>>,
    out: Option<Seq<char>>,
) -> (Seq<Seq<char>>, Option<Seq<char>>)
    decreases args.len(),
{
    if args.len() == 0 {
        (kept, out)
    } else if args[0] == gt_token() && args.len() >= 2 {
        extract_from(args.skip(2), kept, Some(args[1]))
    } else {
        extract_from(args.drop_first(), kept.push(args[0]), out)
    }
}

/// The plain arguments and the output-redirection target of an argument
/// list. At most one target comes out: the last `> file` pair wins.
pub open spec fn spec_extract_redirection(args: Seq<Seq<char>>) -> (
    Seq<Seq<char>>,
    Option<Seq<char>>,
) {
    extract_from(args, Seq::empty(), None)
}

impl Shell {
    /// Splits a raw input line into tokens, honoring double-quote grouping,
    /// backslash escaping, and the standalone pipe token.
    pub fn parse_command(&self, input: &str) -> (tokens: Vec<String>)
        ensures
            tokens.deep_view() == tokenize::spec_tokenize(input@),
    {
        tokenize::tokenize(input)
    }

    /// Groups a token list into pipeline segments, splitting on the pipe
    /// token; empty segments are dropped, so every segment is non-empty.
    pub fn segment(&self, tokens: &Vec<String>) -> (segments: Vec<Vec<String>>)
        ensures
            segments.deep_view() == tokenize::spec_segment(tokens.deep_view()),
            forall|i: int| 0 <= i < segments@.len() ==> #[trigger] segments@[i]@.len() > 0,
    {
        tokenize::segment(tokens)
    }

    /// Maps a command name onto the platform-appropriate executable name and
    /// argument list, by the static alias table; unmapped names pass through
    /// unchanged.
    pub fn map_command(&self, command: &str, args: &[String]) -> (r: (String, Vec<String>))
        ensures
            r.0@ == spec_map_command(self.shell_type, command@, args.deep_view()).0,
            r.1.deep_view() == spec_map_command(self.shell_type, command@, args.deep_view()).1,
    {
        match self.shell_type {
            PlatformIdentity::WindowsLike => {
                if str_eq(command, "ls") {
                    let mut v: Vec<String> = Vec::new();
                    v.push(String::from_str("/C"));
                    v.push(String::from_str("dir"));
                    v.push(String::from_str("/W"));
                    proof {
                        assert(v.deep_view() =~= seq!["/C"@, "dir"@, "/W"@]);
                    }
                    (String::from_str("cmd"), v)
                } else if str_eq(command, "clear") {
                    let mut v: Vec<String> = Vec::new();
                    v.push(String::from_str("/C"));
                    v.push(String::from_str("cls"));
                    proof {
                        assert(v.deep_view() =~= seq!["/C"@, "cls"@]);
                    }
                    (String::from_str("cmd"), v)
                } else if str_eq(command, "rm") {
                    renamed("del", args)
                } else if str_eq(command, "cp") {
                    renamed("copy", args)
                } else if str_eq(command, "mv") {
                    renamed("move", args)
                } else if str_eq(command, "cat") {
                    renamed("type", args)
                } else if str_eq(command, "grep") {
                    renamed("findstr", args)
                } else if str_eq(command, "touch") {
                    let mut v: Vec<String> = Vec::new();
                    v.push(String::from_str("NUL"));
                    v.push(String::from_str(">"));
                    let ghost pre = v.deep_view();
                    let mut rest = copy_args(args);
                    let ghost rest_view = rest.deep_view();
                    v.append(&mut rest);
                    proof {
                        assert(pre =~= seq!["NUL"@, ">"@]);
                        assert(v.deep_view() =~= pre + rest_view);
                    }
                    (String::from_str("echo"), v)
                } else if str_eq(command, "chmod") {
                    renamed("icacls", args)
                } else if str_eq(command, "ps") {
                    let v: Vec<String> = Vec::new();
                    proof {
                        assert(v.deep_view() =~= Seq::<Seq<char>>::empty());
                    }
                    (String::from_str("tasklist"), v)
                } else if str_eq(command, "kill") {
                    renamed_with_flag("taskkill", "/PID", args)
                } else {
                    renamed(command, args)
                }
            },
            _ => {
                if str_eq(command, "dir") {
                    let v: Vec<String> = Vec::new();
                    proof {
                        assert(v.deep_view() =~= Seq::<Seq<char>>::empty());
                    }
                    (String::from_str("ls"), v)
                } else if str_eq(command, "cls") {
                    let v: Vec<String> = Vec::new();
                    proof {
                        assert(v.deep_view() =~= Seq::<Seq<char>>::empty());
                    }
                    (String::from_str("clear"), v)
                } else if str_eq(command, "copy") {
                    renamed("cp", args)
                } else if str_eq(command, "move") {
                    renamed("mv", args)
                } else if str_eq(command, "del") {
                    renamed("rm", args)
                } else if str_eq(command, "type") {
                    renamed("cat", args)
                } else if str_eq(command, "findstr") {
                    renamed("grep", args)
                } else if str_eq(command, "tasklist") {
                    let mut v: Vec<String> = Vec::new();
                    v.push(String::from_str("-e"));
                    proof {
                        assert(v.deep_view() =~= seq!["-e"@]);
                    }
                    (String::from_str("ps"), v)
                } else if str_eq(command, "taskkill") {
                    renamed_with_flag("kill", "-9", args)
                } else {
                    renamed(command, args)
                }
            },
        }
    }

    /// Removes `> file` pairs from the argument list and returns the plain
    /// arguments together with the redirection target, if one was present.
    pub fn check_redirection(&self, args: &[String]) -> (r: (Vec<String>, Option<String>))
        ensures
            r.0.deep_view() == spec_extract_redirection(args.deep_view()).0,
            r.1.deep_view() == spec_extract_redirection(args.deep_view()).1,
    {
        let ghost full = args.deep_view();
        let mut new_args: Vec<String> = Vec::new();
        let mut output_file: Option<String> = None;
        proof {
            assert(full.skip(0) =~= full);
            assert(new_args.deep_view() =~= Seq::<Seq<char>>::empty());
        }
        let mut i: usize = 0;
        while i < args.len()
            invariant
                full == args.deep_view(),
                full.len() == args@.len(),
                forall|j: int| 0 <= j < full.len() ==> full[j] == args[j]@,
                i <= args@.len(),
                spec_extract_redirection(full) == extract_from(
                    full.skip(i as int),
                    new_args.deep_view(),
                    output_file.deep_view(),
                ),
            decreases args@.len() - i,
        {
            proof {
                assert(full.skip(i as int)[0] == full[i as int]);
                assert(full.skip(i as int).drop_first() =~= full.skip(i + 1));
            }
            let ghost pre = new_args.deep_view();
            if is_gt(&args[i]) && i + 1 < args.len() {
                proof {
                    assert(full.skip(i as int)[1] == full[i + 1]);
                    assert(full.skip(i as int).skip(2) =~= full.skip(i + 2));
                }
                output_file = Some(args[i + 1].clone());
                i = i + 2;
            } else {
                new_args.push(args[i].clone());
                proof {
                    assert(new_args.deep_view() =~= pre.push(full[i as int]));
                }
                i = i + 1;
            }
        }
        proof {
            assert(full.skip(full.len() as int) =~= Seq::<Seq<char>>::empty());
        }
        (new_args, output_file)
    }

    /// Turns a raw input line into the plan the interpreter carries out:
    /// tokenize, segment, then either dispatch the single command (after
    /// redirection extraction) or plan the pipeline.
    pub fn plan_command(&self, input: &str) -> (plan: CommandPlan)
        ensures
            command_plan_matches(self.shell_type, input@, plan),
    {
        let tokens = self.parse_command(input);
        let segments = self.segment(&tokens);
        let ghost segs = segments.deep_view();
        if segments.len() == 0 {
            CommandPlan::Empty
        } else if segments.len() == 1 {
            let seg_slice = segments[0].as_slice();
            proof {
                assert(seg_slice.deep_view() =~= segments[0].deep_view());
                assert(segs[0] == segments[0].deep_view());
            }
            let (plain, out) = self.check_redirection(seg_slice);
            if plain.len() == 0 {
                proof {
                    assert(plain.deep_view().len() == 0);
                }
                CommandPlan::Empty
            } else {
                proof {
                    assert(plain.deep_view()[0] == plain[0]@);
                }
                let args = tail_args(&plain);
                let args_slice = args.as_slice();
                proof {
                    assert(args_slice.deep_view() =~= args.deep_view());
                }
                let decision = self.dispatch(plain[0].as_str(), args_slice, out);
                CommandPlan::Single { decision }
            }
        } else {
            proof {
                assert(forall|i: int|
                    0 <= i < segs.len() ==> #[trigger] segs[i].len() == segments@[i]@.len());
            }
            let stages = self.plan_pipeline(&segments);
            CommandPlan::Pipeline { stages }
        }
    }
}

/// Whether this token is the redirection token `>`.
fn is_gt(tok: &String) -> (r: bool)
    ensures
        r == (tok@ == gt_token()),
{
    proof {
        reveal_strlit(">");
        assert(">"@ =~= gt_token());
    }
    crate::text::str_eq(tok.as_str(), ">")
}

} // verus!
