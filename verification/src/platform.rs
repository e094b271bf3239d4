//! The platform identity of the host: which operating-system family the
//! interpreter is translating command names for.

use vstd::prelude::*;
use crate::text;

verus! {

/// The operating-system family the interpreter runs on. It is chosen once at
/// startup, supplied by the surrounding program, and never changes afterwards.
#[derive(Clone, Copy, Debug, PartialEq, Eq, Structural)]
pub enum PlatformIdentity {
    /// A Unix-like host (Linux and friends).
    Unix,
    /// A macOS-like host.
    MacLike,
    /// A Windows-like host.
    WindowsLike,
}

/// Reads the user's answer to the platform-selection menu: a blank answer
/// picks the default, the digits choose a platform, and anything else is
/// rejected so the menu can ask again.
pub fn parse_shell_choice(input: &str, default: PlatformIdentity) -> (r: Option<
    PlatformIdentity,
>)
    ensures
        ({
            let t = text::spec_trim(input@);
            if t.len() == 0 {
                r == Some(default)
            } else if t == "1"@ {
                r == Some(PlatformIdentity::Unix)
            } else if t == "2"@ {
                r == Some(PlatformIdentity::MacLike)
            } else if t == "3"@ {
                r == Some(PlatformIdentity::WindowsLike)
            } else {
                r is None
            }
        }),
{
    let t = text::trim_blanks(input);
    if t.as_str().is_empty() {
        Some(default)
    } else if text::str_eq(t.as_str(), "1") {
        Some(PlatformIdentity::Unix)
    } else if text::str_eq(t.as_str(), "2") {
        Some(PlatformIdentity::MacLike)
    } else if text::str_eq(t.as_str(), "3") {
        Some(PlatformIdentity::WindowsLike)
    } else {
        None
    }
}

} // verus!
