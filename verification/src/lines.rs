//! Line and name selection for the file-reading builtins.
//!
//! `head`, `tail` and `grep` read a file and then select lines; `find` walks
//! a directory tree and selects names by a glob pattern. The reading and
//! walking are the surrounding program's task; the selections are computed
//! here, exactly. Glob matching itself is the glob crate's work, reached
//! through trusted wrappers; the filter's contract is exact over the named
//! match relation.

use vstd::prelude::*;
use vstd::string::*;
use crate::command_execution::copy_args;
use crate::text;

verus! {

/// The first `count` lines (all of them if there are fewer).
pub fn head_lines(lines: &[String], count: usize) -> (r: Vec<String>)
    ensures
        count >= lines.deep_view().len() ==> r.deep_view() == lines.deep_view(),
        count < lines.deep_view().len() ==> r.deep_view() == lines.deep_view().take(
            count as int,
        ),
{
    let ghost full = lines.deep_view();
    let mut r: Vec<String> = Vec::new();
    proof {
        assert(r.deep_view() =~= full.take(0));
    }
    let mut i: usize = 0;
    while i < lines.len() && i < count
        invariant
            full == lines.deep_view(),
            full.len() == lines@.len(),
            forall|j: int| 0 <= j < full.len() ==> full[j] == lines[j]@,
            i <= full.len(),
            i <= count,
            r.deep_view() == full.take(i as int),
        decreases lines@.len() - i,
    {
        let ghost pre = r.deep_view();
        r.push(lines[i].clone());
        proof {
            assert(r.deep_view() =~= pre.push(full[i as int]));
            assert(full.take(i + 1) =~= full.take(i as int).push(full[i as int]));
        }
        i = i + 1;
    }
    proof {
        if count >= full.len() {
            assert(full.take(full.len() as int) =~= full);
        }
    }
    r
}

/// The last `count` lines (all of them if there are fewer).
pub fn tail_lines(lines: &[String], count: usize) -> (r: Vec<String>)
    ensures
        count >= lines.deep_view().len() ==> r.deep_view() == lines.deep_view(),
        count < lines.deep_view().len() ==> r.deep_view() == lines.deep_view().skip(
            lines.deep_view().len() - count as int,
        ),
{
    let ghost full = lines.deep_view();
    let len = lines.len();
    let start = if count >= len {
        0
    } else {
        len - count
    };
    let mut r: Vec<String> = Vec::new();
    proof {
        assert(r.deep_view() =~= full.subrange(start as int, start as int));
    }
    let mut i: usize = start;
    while i < len
        invariant
            full == lines.deep_view(),
            full.len() == lines@.len(),
            len == lines@.len(),
            forall|j: int| 0 <= j < full.len() ==> full[j] == lines[j]@,
            start <= i <= len,
            r.deep_view() == full.subrange(start as int, i as int),
        decreases len - i,
    {
        let ghost pre = r.deep_view();
        r.push(lines[i].clone());
        proof {
            assert(r.deep_view() =~= pre.push(full[i as int]));
            assert(full.subrange(start as int, i + 1) =~= full.subrange(
                start as int,
                i as int,
            ).push(full[i as int]));
        }
        i = i + 1;
    }
    proof {
        if count >= full.len() {
            assert(full.subrange(0, full.len() as int) =~= full);
        } else {
            assert(full.subrange(start as int, full.len() as int) =~= full.skip(
                full.len() - count as int,
            ));
        }
    }
    r
}

/// The lines that contain `pattern` as a substring, in order.
pub open spec fn spec_matching_lines(lines: Seq<Seq<char>>, pattern: Seq<char>) -> Seq<Seq<char>>
    decreases lines.len(),
{
    if lines.len() == 0 {
        Seq::empty()
    } else {
        let pre = spec_matching_lines(lines.drop_last(), pattern);
        if text::spec_contains(lines.last(), pattern) {
            pre.push(lines.last())
        } else {
            pre
        }
    }
}

/// Keeps the lines that contain `pattern` as a substring.
pub fn grep_lines(lines: &[String], pattern: &str) -> (r: Vec<String>)
    ensures
        r.deep_view() == spec_matching_lines(lines.deep_view(), pattern@),
{
    let ghost full = lines.deep_view();
    let mut r: Vec<String> = Vec::new();
    proof {
        assert(full.take(0) =~= Seq::<Seq<char>>::empty());
        assert(r.deep_view() =~= spec_matching_lines(full.take(0), pattern@));
    }
    let mut i: usize = 0;
    while i < lines.len()
        invariant
            full == lines.deep_view(),
            full.len() == lines@.len(),
            forall|j: int| 0 <= j < full.len() ==> full[j] == lines[j]@,
            i <= full.len(),
            r.deep_view() == spec_matching_lines(full.take(i as int), pattern@),
        decreases lines@.len() - i,
    {
        proof {
            assert(full.take(i + 1).drop_last() =~= full.take(i as int));
            assert(full.take(i + 1).last() == full[i as int]);
        }
        let ghost pre = r.deep_view();
        if text::str_contains(lines[i].as_str(), pattern) {
            r.push(lines[i].clone());
            proof {
                assert(r.deep_view() =~= pre.push(full[i as int]));
            }
        }
        i = i + 1;
    }
    proof {
        assert(full.take(full.len() as int) =~= full);
    }
    r
}

/// Whether the glob crate accepts this pattern's syntax. A function of the
/// pattern text alone.
pub uninterp spec fn glob_syntax_ok(pattern: Seq<char>) -> bool;

/// Whether this name matches this glob pattern. A function of the two texts
/// alone.
pub uninterp spec fn glob_match(pattern: Seq<char>, name: Seq<char>) -> bool;

/// Relies on `glob::Pattern::new`: whether the pattern compiles. Compilation
/// depends on the pattern text alone, so its success is named.
#[verifier::external_body]
fn glob_syntax_check(pattern: &str) -> (r: bool)
    ensures
        r == glob_syntax_ok(pattern@),
{
    glob::Pattern::new(pattern).is_ok()
}

/// Relies on `glob::Pattern::matches` (after `glob::Pattern::new`, which the
/// caller has already found to succeed): whether the name matches the
/// pattern. Matching depends on the two texts alone, so the result is named.
#[verifier::external_body]
fn glob_match_check(pattern: &str, name: &str) -> (r: bool)
    requires
        glob_syntax_ok(pattern@),
    ensures
        r == glob_match(pattern@, name@),
{
    match glob::Pattern::new(pattern) {
        Ok(p) => p.matches(name),
        Err(_) => false,
    }
}

/// The names that match the glob pattern, in order.
pub open spec fn spec_glob_kept(names: Seq<Seq<char>>, pattern: Seq<char>) -> Seq<Seq<char>>
    decreases names.len(),
{
    if names.len() == 0 {
        Seq::empty()
    } else {
        let pre = spec_glob_kept(names.drop_last(), pattern);
        if glob_match(pattern, names.last()) {
            pre.push(names.last())
        } else {
            pre
        }
    }
}

/// What the name filter of `find` keeps: with no pattern, or with one the
/// glob crate rejects, every name; otherwise exactly the matching names.
pub open spec fn spec_find_filter(names: Seq<Seq<char>>, pattern: Option<Seq<char>>) -> Seq<
    Seq<char>,
> {
    match pattern {
        None => names,
        Some(p) => if !glob_syntax_ok(p) {
            names
        } else {
            spec_glob_kept(names, p)
        },
    }
}

/// Filters directory-entry names the way `find` does: keeps every name when
/// no usable pattern is given, and exactly the glob-matching names
/// otherwise.
pub fn filter_names(names: &[String], pattern: &Option<String>) -> (r: Vec<String>)
    ensures
        r.deep_view() == spec_find_filter(names.deep_view(), pattern.deep_view()),
{
    match pattern {
        None => copy_args(names),
        Some(p) => {
            if !glob_syntax_check(p.as_str()) {
                copy_args(names)
            } else {
                let ghost full = names.deep_view();
                let mut r: Vec<String> = Vec::new();
                proof {
                    assert(full.take(0) =~= Seq::<Seq<char>>::empty());
                    assert(r.deep_view() =~= spec_glob_kept(full.take(0), p@));
                }
                let mut i: usize = 0;
                while i < names.len()
                    invariant
                        full == names.deep_view(),
                        full.len() == names@.len(),
                        forall|j: int| 0 <= j < full.len() ==> full[j] == names[j]@,
                        glob_syntax_ok(p@),
                        i <= full.len(),
                        r.deep_view() == spec_glob_kept(full.take(i as int), p@),
                    decreases names@.len() - i,
                {
                    proof {
                        assert(full.take(i + 1).drop_last() =~= full.take(i as int));
                        assert(full.take(i + 1).last() == full[i as int]);
                    }
                    let ghost pre = r.deep_view();
                    if glob_match_check(p.as_str(), names[i].as_str()) {
                        r.push(names[i].clone());
                        proof {
                            assert(r.deep_view() =~= pre.push(full[i as int]));
                        }
                    }
                    i = i + 1;
                }
                proof {
                    assert(full.take(full.len() as int) =~= full);
                }
                r
            }
        },
    }
}

} // verus!
