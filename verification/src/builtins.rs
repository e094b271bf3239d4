//! What the pure builtins print, and where the text goes.
//!
//! A few builtins (`echo`, `pwd`, `env`) compute their whole output from the
//! shell's state and their arguments alone. Their text is rendered here,
//! exactly; combined with an extracted redirection target it yields an
//! output plan — the text and its sink — that the surrounding program
//! carries out by printing or by writing the file. The remaining builtins
//! touch the filesystem or the host and are carried out by the surrounding
//! program directly.
//!
//! The `which` and `type` builtins are split the same way: the host lookup
//! of an executable is an outside call whose result depends on the machine,
//! and the message printed for any given lookup result is rendered here,
//! exactly.

use vstd::prelude::*;
use vstd::string::*;
use crate::dispatch::{spec_builtin_of_name, Builtin};
use crate::shell::Shell;
use crate::text;

verus! {

/// Where a builtin's output text goes.
pub enum OutputSink {
    /// Shown on the terminal.
    Terminal,
    /// Written to this file instead of the terminal.
    File(String),
}

/// The mathematical shape of an output sink.
pub enum SpecSink {
    Terminal,
    File(Seq<char>),
}

impl View for OutputSink {
    type V = SpecSink;

    open spec fn view(&self) -> SpecSink {
        match self {
            OutputSink::Terminal => SpecSink::Terminal,
            OutputSink::File(f) => SpecSink::File(f@),
        }
    }
}

/// The sink a redirection target selects: the file if one was extracted,
/// the terminal otherwise.
pub open spec fn spec_sink_for(out: Option<Seq<char>>) -> SpecSink {
    match out {
        Some(f) => SpecSink::File(f),
        None => SpecSink::Terminal,
    }
}

/// The environment snapshot as `key=value` lines.
pub open spec fn spec_env_lines(env: Seq<(Seq<char>, Seq<char>)>) -> Seq<char>
    decreases env.len(),
{
    if env.len() == 0 {
        Seq::empty()
    } else {
        spec_env_lines(env.drop_last()) + env.last().0 + seq!['='] + env.last().1 + seq!['\n']
    }
}

/// The exact terminal text of a pure builtin, or `None` for a builtin whose
/// output depends on the filesystem or the host.
pub open spec fn spec_render_builtin(s: Shell, which: Builtin, args: Seq<Seq<char>>) -> Option<
    Seq<char>,
> {
    match which {
        Builtin::Echo => Some(text::spec_join(args) + seq!['\n']),
        Builtin::Pwd => Some(s.current_dir@ + seq!['\n']),
        Builtin::Env => Some(spec_env_lines(s.env_vars.deep_view())),
        _ => None,
    }
}

/// A rendered builtin output: the text and where it goes.
pub struct BuiltinIo {
    /// The full output text, exactly as it would appear on the terminal.
    pub text: String,
    /// The sink the text goes to.
    pub sink: OutputSink,
}

/// The output plan of a pure builtin under an optional redirection target.
pub open spec fn spec_builtin_io(
    s: Shell,
    which: Builtin,
    args: Seq<Seq<char>>,
    out: Option<Seq<char>>,
) -> Option<(Seq<char>, SpecSink)> {
    match spec_render_builtin(s, which, args) {
        Some(t) => Some((t, spec_sink_for(out))),
        None => None,
    }
}

/// Redirecting a pure builtin changes only the sink, never the text: the
/// file receives exactly the bytes the terminal would have shown, and the
/// terminal receives nothing.
pub proof fn lemma_builtin_redirection_preserves_text(
    s: Shell,
    which: Builtin,
    args: Seq<Seq<char>>,
    f: Seq<char>,
)
    requires
        spec_builtin_io(s, which, args, Some(f)) is Some,
    ensures
        spec_builtin_io(s, which, args, Some(f))->Some_0.0 == spec_builtin_io(
            s,
            which,
            args,
            None,
        )->Some_0.0,
        spec_builtin_io(s, which, args, Some(f))->Some_0.1 == SpecSink::File(f),
        spec_builtin_io(s, which, args, None)->Some_0.1 == SpecSink::Terminal,
{
}

impl Shell {
    /// Renders the exact output text of a pure builtin; `None` for the
    /// builtins whose output the surrounding program must gather from the
    /// filesystem or the host.
    pub fn render_builtin(&self, which: Builtin, args: &[String]) -> (r: Option<String>)
        ensures
            r.deep_view() == spec_render_builtin(*self, which, args.deep_view()),
    {
        match which {
            Builtin::Echo => {
                let mut t = text::join_tokens(args);
                t.push('\n');
                Some(t)
            },
            Builtin::Pwd => {
                let mut t = self.current_dir.clone();
                t.push('\n');
                Some(t)
            },
            Builtin::Env => {
                let ghost env = self.env_vars.deep_view();
                let mut t = String::new();
                proof {
                    assert(spec_env_lines(env.take(0)) =~= Seq::<char>::empty());
                }
                let mut i: usize = 0;
                while i < self.env_vars.len()
                    invariant
                        env == self.env_vars.deep_view(),
                        env.len() == self.env_vars.len(),
                        forall|j: int|
                            0 <= j < env.len() ==> env[j] == (
                            self.env_vars[j].0@,
                            self.env_vars[j].1@,
                        ),
                        i <= env.len(),
                        t@ == spec_env_lines(env.take(i as int)),
                    decreases env.len() - i,
                {
                    proof {
                        assert(env.take(i + 1).drop_last() =~= env.take(i as int));
                        assert(env.take(i + 1).last() == env[i as int]);
                    }
                    t.append(self.env_vars[i].0.as_str());
                    t.push('=');
                    t.append(self.env_vars[i].1.as_str());
                    t.push('\n');
                    proof {
                        assert(t@ =~= spec_env_lines(env.take(i as int)) + env[i as int].0
                            + seq!['='] + env[i as int].1 + seq!['\n']);
                    }
                    i = i + 1;
                }
                proof {
                    assert(env.take(env.len() as int) =~= env);
                }
                Some(t)
            },
            _ => None,
        }
    }

    /// The output plan of a pure builtin: its rendered text, bound for the
    /// redirection target if one was extracted and for the terminal
    /// otherwise.
    pub fn plan_builtin_io(&self, which: Builtin, args: &[String], output_file: Option<String>)
        -> (r: Option<BuiltinIo>)
        ensures
            r matches Some(io) ==> Some((io.text@, io.sink@)) == spec_builtin_io(
                *self,
                which,
                args.deep_view(),
                output_file.deep_view(),
            ),
            r is None ==> spec_builtin_io(
                *self,
                which,
                args.deep_view(),
                output_file.deep_view(),
            ) is None,
    {
        match self.render_builtin(which, args) {
            Some(t) => {
                let sink = match output_file {
                    Some(f) => OutputSink::File(f),
                    None => OutputSink::Terminal,
                };
                Some(BuiltinIo { text: t, sink })
            },
            None => None,
        }
    }

    /// The message the `which` builtin prints for a command, given what the
    /// host lookup answered for it.
    pub fn which_message(&self, cmd: &str, resolved: &Option<String>) -> (r: String)
        ensures
            r@ == spec_which_message(cmd@, resolved.deep_view()),
    {
        if crate::dispatch::builtin_of_name(cmd).is_some() {
            String::from_str(cmd).concat(" is a shell builtin")
        } else {
            match resolved {
                Some(path) => path.clone(),
                None => String::from_str(cmd).concat(": command not found"),
            }
        }
    }

    /// The message the `type` builtin prints for a command, given what the
    /// host lookup answered for it.
    pub fn type_message(&self, cmd: &str, resolved: &Option<String>) -> (r: String)
        ensures
            r@ == spec_type_message(cmd@, resolved.deep_view()),
    {
        if crate::dispatch::builtin_of_name(cmd).is_some() {
            String::from_str(cmd).concat(" is a shell builtin")
        } else {
            match resolved {
                Some(path) => String::from_str(cmd).concat(" is ").concat(path.as_str()),
                None => String::from_str(cmd).concat(": not found"),
            }
        }
    }

    /// What `which` prints for `cmd`: a registered builtin is reported as
    /// such without any host lookup; otherwise the host's executable search
    /// decides, and the message is exact for whatever it answered.
    pub fn which_report(&self, cmd: &str) -> (r: String)
        ensures
            exists|resolved: Option<Seq<char>>| r@ == spec_which_message(cmd@, resolved),
            spec_builtin_of_name(cmd@) is Some ==> r@ == cmd@ + " is a shell builtin"@,
    {
        if crate::dispatch::builtin_of_name(cmd).is_some() {
            let r = self.which_message(cmd, &None);
            proof {
                assert(r@ == spec_which_message(cmd@, None::<String>.deep_view()));
            }
            r
        } else {
            let resolved = which_lookup(cmd);
            let r = self.which_message(cmd, &resolved);
            r
        }
    }

    /// What `type` prints for `cmd`, in the same way.
    pub fn type_report(&self, cmd: &str) -> (r: String)
        ensures
            exists|resolved: Option<Seq<char>>| r@ == spec_type_message(cmd@, resolved),
            spec_builtin_of_name(cmd@) is Some ==> r@ == cmd@ + " is a shell builtin"@,
    {
        if crate::dispatch::builtin_of_name(cmd).is_some() {
            let r = self.type_message(cmd, &None);
            proof {
                assert(r@ == spec_type_message(cmd@, None::<String>.deep_view()));
            }
            r
        } else {
            let resolved = which_lookup(cmd);
            let r = self.type_message(cmd, &resolved);
            r
        }
    }
}

/// The `which` message for a command: a registered builtin is a shell
/// builtin; a resolved path is printed as is; anything else was not found.
pub open spec fn spec_which_message(cmd: Seq<char>, resolved: Option<Seq<char>>) -> Seq<char> {
    if spec_builtin_of_name(cmd) is Some {
        cmd + " is a shell builtin"@
    } else {
        match resolved {
            Some(path) => path,
            None => cmd + ": command not found"@,
        }
    }
}

/// The `type` message for a command, in the same shape.
pub open spec fn spec_type_message(cmd: Seq<char>, resolved: Option<Seq<char>>) -> Seq<char> {
    if spec_builtin_of_name(cmd) is Some {
        cmd + " is a shell builtin"@
    } else {
        match resolved {
            Some(path) => cmd + " is "@ + path,
            None => cmd + ": not found"@,
        }
    }
}

/// Relies on `which::which`: resolves a command name against the host's
/// executable search path. The answer depends on the machine's disk and
/// environment, so nothing is promised of it; the callers state what they
/// print for every possible answer.
#[verifier::external_body]
fn which_lookup(cmd: &str) -> Option<String> {
    match which::which(cmd) {
        Ok(path) => Some(path.display().to_string()),
        Err(_) => None,
    }
}

} // verus!
