//! The interpreter's state: platform identity, working directory, home
//! directory, environment snapshot, and command history.
//!
//! All fields are plain values. The surrounding program gathers them from the
//! host at startup and keeps them in step with the host afterwards; the
//! parsing and dispatch logic here only reads them, and only the history is
//! ever mutated through this type.

use vstd::prelude::*;
use vstd::string::*;
use crate::platform::PlatformIdentity;
use crate::text;

verus! {

/// The shell's state, owned by the interpreter loop and passed into every
/// dispatch call.
pub struct Shell {
    /// Which operating-system family command names are mapped for.
    pub shell_type: PlatformIdentity,
    /// The current working directory.
    pub current_dir: String,
    /// The user's home directory.
    pub home_dir: String,
    /// A snapshot of the environment, as key/value pairs.
    pub env_vars: Vec<(String, String)>,
    /// The command lines entered so far, oldest first.
    pub history: Vec<String>,
    /// The path of the file the history is persisted to.
    pub history_file: String,
}

impl Shell {
    /// Builds a shell from externally supplied state: the platform identity
    /// and the host facts (working directory, home directory, environment
    /// snapshot, loaded history, history file path) that the surrounding
    /// program gathered.
    pub fn new(
        shell_type: PlatformIdentity,
        current_dir: String,
        home_dir: String,
        env_vars: Vec<(String, String)>,
        history: Vec<String>,
        history_file: String,
    ) -> (shell: Shell)
        ensures
            shell.shell_type == shell_type,
            shell.current_dir == current_dir,
            shell.home_dir == home_dir,
            shell.env_vars == env_vars,
            shell.history == history,
            shell.history_file == history_file,
    {
        Shell { shell_type, current_dir, home_dir, env_vars, history, history_file }
    }

    /// Appends a non-blank command line to the in-memory history; a line that
    /// is blank after trimming is not recorded. Persisting the history to
    /// disk is the surrounding program's task.
    pub fn add_to_history(&mut self, command: &str)
        ensures
            final(self).history.deep_view() == if text::spec_trim(command@).len() > 0 {
                old(self).history.deep_view().push(command@)
            } else {
                old(self).history.deep_view()
            },
            final(self).shell_type == old(self).shell_type,
            final(self).current_dir == old(self).current_dir,
            final(self).home_dir == old(self).home_dir,
            final(self).env_vars == old(self).env_vars,
            final(self).history_file == old(self).history_file,
    {
        let trimmed = text::trim_blanks(command);
        let ghost pre = self.history.deep_view();
        if !trimmed.as_str().is_empty() {
            self.history.push(String::from_str(command));
            proof {
                assert(self.history.deep_view() =~= pre.push(command@));
            }
        }
    }

    /// The first value bound to `key` in the environment snapshot.
    pub fn lookup_env(&self, key: &str) -> (r: Option<&String>)
        ensures
            r matches Some(v) ==> spec_env_lookup(self.env_vars.deep_view(), key@) == Some(v@),
            r is None ==> spec_env_lookup(self.env_vars.deep_view(), key@) is None,
    {
        let ghost env = self.env_vars.deep_view();
        proof {
            assert(env.skip(0) =~= env);
        }
        let mut i: usize = 0;
        while i < self.env_vars.len()
            invariant
                env == self.env_vars.deep_view(),
                env.len() == self.env_vars.len(),
                forall|j: int|
                    0 <= j < env.len() ==> env[j] == (
                    self.env_vars[j].0@,
                    self.env_vars[j].1@,
                ),
                i <= env.len(),
                spec_env_lookup(env, key@) == spec_env_lookup(env.skip(i as int), key@),
            decreases env.len() - i,
        {
            proof {
                assert(env.skip(i as int).drop_first() =~= env.skip(i + 1));
                assert(env.skip(i as int)[0] == env[i as int]);
            }
            if text::str_eq(self.env_vars[i].0.as_str(), key) {
                return Some(&self.env_vars[i].1);
            }
            i = i + 1;
        }
        proof {
            assert(env.skip(env.len() as int) =~= Seq::<(Seq<char>, Seq<char>)>::empty());
        }
        None
    }
}

/// What an input line asks of the interpreter loop.
pub enum LineAction {
    /// Leave the loop: the line was exactly `exit` (after trimming).
    Exit,
    /// Nothing to do: the line was blank.
    Empty,
    /// Record and run this trimmed command line.
    Run(String),
}

/// Decides what an input line asks for: a blank line is skipped, the exact
/// word `exit` ends the loop, and anything else is run, trimmed.
pub fn interpret_line(line: &str) -> (r: LineAction)
    ensures
        ({
            let t = text::spec_trim(line@);
            if t.len() == 0 {
                r is Empty
            } else if t == "exit"@ {
                r is Exit
            } else {
                r matches LineAction::Run(cmd) && cmd@ == t
            }
        }),
{
    let trimmed = text::trim_blanks(line);
    if trimmed.as_str().is_empty() {
        LineAction::Empty
    } else if text::str_eq(trimmed.as_str(), "exit") {
        LineAction::Exit
    } else {
        LineAction::Run(trimmed)
    }
}

/// The name of the history file for a platform, joined under the home
/// directory.
pub open spec fn spec_history_file_name(platform: PlatformIdentity) -> Seq<char> {
    match platform {
        PlatformIdentity::WindowsLike => ".shell_history.txt"@,
        _ => ".shell_history"@,
    }
}

/// The path of the history file: the platform's history file name under the
/// home directory.
pub fn history_file_path(shell_type: PlatformIdentity, home_dir: &str) -> (r: String)
    ensures
        r@ == home_dir@ + seq!['/'] + spec_history_file_name(shell_type),
{
    let mut r = String::from_str(home_dir);
    r.push('/');
    match shell_type {
        PlatformIdentity::WindowsLike => r.append(".shell_history.txt"),
        _ => r.append(".shell_history"),
    }
    r
}

/// The working directory as shown in the prompt: on the Windows-like
/// platform the full path; elsewhere, a path under the home directory is
/// abbreviated with `~` in front of the remainder.
pub open spec fn spec_display_path(s: Shell) -> Seq<char> {
    if s.shell_type == PlatformIdentity::WindowsLike {
        s.current_dir@
    } else if s.home_dir@.is_prefix_of(s.current_dir@) {
        seq!['~'] + s.current_dir@.skip(s.home_dir@.len() as int)
    } else {
        s.current_dir@
    }
}

/// The user name shown in the prompt: the `USER` environment entry, with a
/// fixed fallback when the snapshot has none.
pub open spec fn spec_username(s: Shell) -> Seq<char> {
    match spec_env_lookup(s.env_vars.deep_view(), "USER"@) {
        Some(u) => u,
        None => "user"@,
    }
}

/// The prompt for a user, host and display path: `user@host:path $ ` on the
/// Unix platform, with `%` on the macOS-like one, and `path> ` on the
/// Windows-like one.
pub open spec fn spec_prompt(s: Shell, user: Seq<char>, host: Seq<char>) -> Seq<char> {
    match s.shell_type {
        PlatformIdentity::Unix => user + "@"@ + host + ":"@ + spec_display_path(s) + " $ "@,
        PlatformIdentity::MacLike => user + "@"@ + host + ":"@ + spec_display_path(s) + " % "@,
        PlatformIdentity::WindowsLike => spec_display_path(s) + "> "@,
    }
}

impl Shell {
    /// Formats the working directory for display in the prompt.
    pub fn format_display_path(&self) -> (r: String)
        ensures
            r@ == spec_display_path(*self),
    {
        if self.shell_type == PlatformIdentity::WindowsLike {
            self.current_dir.clone()
        } else if text::str_starts_with(self.current_dir.as_str(), self.home_dir.as_str()) {
            let hlen = self.home_dir.as_str().unicode_len();
            let clen = self.current_dir.as_str().unicode_len();
            let mut r = String::new();
            r.push('~');
            let mut i: usize = hlen;
            while i < clen
                invariant
                    hlen == self.home_dir@.len(),
                    clen == self.current_dir@.len(),
                    hlen <= i <= clen,
                    r@ =~= seq!['~'] + self.current_dir@.subrange(hlen as int, i as int),
                decreases clen - i,
            {
                r.push(self.current_dir.as_str().get_char(i));
                i = i + 1;
            }
            proof {
                assert(self.current_dir@.subrange(hlen as int, clen as int)
                    =~= self.current_dir@.skip(hlen as int));
            }
            r
        } else {
            self.current_dir.clone()
        }
    }

    /// Renders the prompt for a given user and host name.
    pub fn render_prompt(&self, user: &str, host: &str) -> (r: String)
        ensures
            r@ == spec_prompt(*self, user@, host@),
    {
        let path = self.format_display_path();
        match self.shell_type {
            PlatformIdentity::Unix => String::from_str(user).concat("@").concat(host).concat(
                ":",
            ).concat(path.as_str()).concat(" $ "),
            PlatformIdentity::MacLike => String::from_str(user).concat("@").concat(host).concat(
                ":",
            ).concat(path.as_str()).concat(" % "),
            PlatformIdentity::WindowsLike => path.concat("> "),
        }
    }

    /// The prompt shown before reading a line: the `USER` environment entry
    /// (or its fallback), the machine's hostname, and the display path, in
    /// the platform's shape. The hostname comes from the host, so it is
    /// existentially bound; everything else is exact.
    pub fn get_prompt(&self) -> (r: String)
        ensures
            exists|host: Seq<char>| r@ == spec_prompt(*self, spec_username(*self), host),
    {
        let user = match self.lookup_env("USER") {
            Some(u) => u.clone(),
            None => String::from_str("user"),
        };
        let host = host_name();
        let r = self.render_prompt(user.as_str(), host.as_str());
        proof {
            assert(r@ == spec_prompt(*self, spec_username(*self), host@));
        }
        r
    }
}

/// Relies on `hostname::get`: the machine's hostname, lossily decoded to a
/// string; an unreadable hostname yields the empty string. The answer is
/// machine state, so nothing is promised of it; `get_prompt` states what it
/// builds around whatever came back.
#[verifier::external_body]
fn host_name() -> String {
    hostname::get().unwrap_or_default().to_string_lossy().to_string()
}

/// The value bound to `key` by the first matching pair, if any.
pub open spec fn spec_env_lookup(env: Seq<(Seq<char>, Seq<char>)>, key: Seq<char>) -> Option<
    Seq<char>,
>
    decreases env.len(),
{
    if env.len() == 0 {
        None
    } else if env[0].0 == key {
        Some(env[0].1)
    } else {
        spec_env_lookup(env.drop_first(), key)
    }
}

} // verus!
