//! Path normalization and `cd` target resolution, on `/`-separated path
//! strings.
//!
//! A path is split into components; empty components and `.` disappear,
//! `..` pops the component before it (a pop past the start, including past
//! the root marker, is absorbed), and a root component restarts the path.
//! The surviving components are joined back with single separators. The
//! `cd` builtin resolves its argument — home shortcuts, absolute paths, or
//! paths relative to the working directory — and normalizes the result; the
//! actual directory change is the surrounding program's task.

use vstd::prelude::*;
use vstd::string::*;
use crate::shell::Shell;
use crate::text;

verus! {

/// The raw parts of `p` split on `/`; there is always at least one part,
/// and no part contains a separator.
pub open spec fn split_slash(p: Seq<char>) -> Seq<Seq<char>>
    decreases p.len(),
{
    if p.len() == 0 {
        seq![Seq::empty()]
    } else if p.last() == '/' {
        split_slash(p.drop_last()).push(Seq::empty())
    } else {
        let pre = split_slash(p.drop_last());
        pre.update(pre.len() - 1, pre.last().push(p.last()))
    }
}

/// Splitting always yields at least one part.
pub proof fn lemma_split_slash_nonempty(p: Seq<char>)
    ensures
        split_slash(p).len() >= 1,
    decreases p.len(),
{
    if p.len() > 0 {
        lemma_split_slash_nonempty(p.drop_last());
    }
}

/// A part survives as a path component when it is neither empty nor `.`.
pub open spec fn keep_component(c: Seq<char>) -> bool {
    c.len() > 0 && c != seq!['.']
}

/// The parts that survive as components, in order.
pub open spec fn kept_components(parts: Seq<Seq<char>>) -> Seq<Seq<char>>
    decreases parts.len(),
{
    if parts.len() == 0 {
        Seq::empty()
    } else {
        let pre = kept_components(parts.drop_last());
        if keep_component(parts.last()) {
            pre.push(parts.last())
        } else {
            pre
        }
    }
}

/// The component that stands for the root of an absolute path.
pub open spec fn root_marker() -> Seq<char> {
    seq!['/']
}

/// The component list of a path: a root marker when the path is absolute,
/// then the surviving parts.
pub open spec fn path_components(p: Seq<char>) -> Seq<Seq<char>> {
    if p.len() > 0 && p[0] == '/' {
        seq![root_marker()] + kept_components(split_slash(p))
    } else {
        kept_components(split_slash(p))
    }
}

/// Resolves `..` components against the components before them: `..` pops
/// the last surviving component (absorbed when there is none), a root
/// marker restarts the list, and any other component is kept.
pub open spec fn norm_fold(comps: Seq<Seq<char>>) -> Seq<Seq<char>>
    decreases comps.len(),
{
    if comps.len() == 0 {
        Seq::empty()
    } else {
        let pre = norm_fold(comps.drop_last());
        let c = comps.last();
        if c == seq!['.', '.'] {
            if pre.len() > 0 {
                pre.drop_last()
            } else {
                pre
            }
        } else if c == root_marker() {
            seq![root_marker()]
        } else {
            pre.push(c)
        }
    }
}

/// Joins components back into a path string with single separators; a
/// leading root marker contributes its `/` without a second separator.
pub open spec fn join_components(comps: Seq<Seq<char>>) -> Seq<char>
    decreases comps.len(),
{
    if comps.len() == 0 {
        Seq::empty()
    } else if comps.len() == 1 {
        comps[0]
    } else {
        let pre = join_components(comps.drop_last());
        if pre.len() > 0 && pre.last() == '/' {
            pre + comps.last()
        } else {
            pre + seq!['/'] + comps.last()
        }
    }
}

/// A path with `.`, `..`, empty components and doubled separators resolved.
pub open spec fn spec_normalize_path(p: Seq<char>) -> Seq<char> {
    join_components(norm_fold(path_components(p)))
}

/// The directory `cd` goes to, before normalization: no argument or a home
/// shortcut is the home directory, an absolute argument stands alone, and
/// anything else is joined under the working directory.
pub open spec fn spec_cd_target(s: Shell, args: Seq<Seq<char>>) -> Seq<char> {
    if args.len() == 0 {
        s.home_dir@
    } else if args[0] == "~"@ || args[0] == "$HOME"@ {
        s.home_dir@
    } else if args[0].len() > 0 && args[0][0] == '/' {
        args[0]
    } else {
        s.current_dir@ + seq!['/'] + args[0]
    }
}

impl Shell {
    /// Normalizes a path by resolving `.` and `..` components and removing
    /// redundant separators.
    pub fn normalize_path(&self, path: &str) -> (r: String)
        ensures
            r@ == spec_normalize_path(path@),
    {
        let ghost p = path@;
        let len = path.unicode_len();
        let is_abs = len > 0 && path.get_char(0) == '/';

        // Phase 1: split into surviving component names.
        let mut names: Vec<String> = Vec::new();
        let mut cur = String::new();
        proof {
            assert(p.take(0) =~= Seq::<char>::empty());
            assert(names.deep_view() =~= Seq::<Seq<char>>::empty());
            assert(split_slash(p.take(0)) == seq![Seq::<char>::empty()]);
            assert(split_slash(p.take(0)).drop_last() =~= Seq::<Seq<char>>::empty());
            assert(kept_components(split_slash(p.take(0)).drop_last()) =~= Seq::<
                Seq<char>,
            >::empty());
        }
        let mut i: usize = 0;
        while i < len
            invariant
                p == path@,
                len == p.len(),
                i <= len,
                split_slash(p.take(i as int)).len() >= 1,
                names.deep_view() == kept_components(split_slash(p.take(i as int)).drop_last()),
                cur@ == split_slash(p.take(i as int)).last(),
            decreases len - i,
        {
            let c = path.get_char(i);
            proof {
                assert(p.take(i + 1).drop_last() =~= p.take(i as int));
                assert(p.take(i + 1).last() == p[i as int]);
                lemma_split_slash_nonempty(p.take(i + 1));
            }
            let ghost old_split = split_slash(p.take(i as int));
            let ghost pre_names = names.deep_view();
            if c == '/' {
                proof {
                    assert(split_slash(p.take(i + 1)) == old_split.push(Seq::<char>::empty()));
                    assert(old_split.push(Seq::<char>::empty()).drop_last() =~= old_split);
                }
                if keep_name(&cur) {
                    names.push(cur);
                    cur = String::new();
                    proof {
                        assert(names.deep_view() =~= pre_names.push(old_split.last()));
                    }
                } else {
                    cur = String::new();
                }
                proof {
                    assert(names.deep_view() == kept_components(old_split));
                }
            } else {
                proof {
                    let upd = old_split.update(
                        old_split.len() - 1,
                        old_split.last().push(p[i as int]),
                    );
                    assert(split_slash(p.take(i + 1)) == upd);
                    assert(upd.drop_last() =~= old_split.drop_last());
                    assert(upd.last() == old_split.last().push(p[i as int]));
                }
                cur.push(c);
            }
            i = i + 1;
        }
        proof {
            assert(p.take(len as int) =~= p);
            lemma_split_slash_nonempty(p);
        }
        let ghost pre_names = names.deep_view();
        if keep_name(&cur) {
            names.push(cur);
            proof {
                assert(names.deep_view() =~= pre_names.push(split_slash(p).last()));
            }
        }
        proof {
            assert(names.deep_view() == kept_components(split_slash(p)));
        }

        // Phase 2: resolve `..` and root markers over the components.
        let ghost comps = path_components(p);
        let ghost base: int = if is_abs {
            1int
        } else {
            0int
        };
        let mut stack: Vec<String> = Vec::new();
        if is_abs {
            stack.push(String::from_str("/"));
            proof {
                reveal_strlit("/");
                assert("/"@ =~= root_marker());
                assert(comps =~= seq![root_marker()] + names.deep_view());
                assert(comps.take(1).drop_last() =~= Seq::<Seq<char>>::empty());
                assert(comps.take(1).last() == root_marker());
                assert(root_marker() != seq!['.', '.']) by {
                    assert(root_marker().len() != seq!['.', '.'].len());
                }
                assert(norm_fold(comps.take(1)) == seq![root_marker()]);
                assert(stack.deep_view() =~= seq![root_marker()]);
            }
        } else {
            proof {
                assert(comps == names.deep_view());
                assert(comps.take(0) =~= Seq::<Seq<char>>::empty());
                assert(stack.deep_view() =~= Seq::<Seq<char>>::empty());
            }
        }
        let ghost names_view = names.deep_view();
        let mut k: usize = 0;
        while k < names.len()
            invariant
                names_view == names.deep_view(),
                names_view.len() == names@.len(),
                forall|j: int| 0 <= j < names_view.len() ==> names_view[j] == names[j]@,
                comps.len() == base + names_view.len(),
                forall|j: int| 0 <= j < names_view.len() ==> comps[base + j] == names_view[j],
                base == 0 || base == 1,
                base == 1 ==> comps[0] == root_marker(),
                k <= names_view.len(),
                stack.deep_view() == norm_fold(comps.take(base + k)),
            decreases names_view.len() - k,
        {
            proof {
                assert(comps.take(base + k + 1).drop_last() =~= comps.take(base + k));
                assert(comps.take(base + k + 1).last() == names_view[k as int]);
            }
            let ghost pre_stack = stack.deep_view();
            let name = &names[k];
            if text::str_eq(name.as_str(), "..") {
                proof {
                    reveal_strlit("..");
                    assert(".."@ =~= seq!['.', '.']);
                    assert(names_view[k as int] =~= seq!['.', '.']);
                }
                if stack.len() > 0 {
                    stack.pop();
                    proof {
                        assert(stack.deep_view() =~= pre_stack.drop_last());
                    }
                }
            } else if text::str_eq(name.as_str(), "/") {
                proof {
                    reveal_strlit("/");
                    reveal_strlit("..");
                    assert("/"@ =~= root_marker());
                    assert(".."@ =~= seq!['.', '.']);
                    assert(names_view[k as int] =~= root_marker());
                    assert(names_view[k as int] != seq!['.', '.']) by {
                        assert(names_view[k as int].len() == 1);
                    }
                }
                stack.clear();
                stack.push(String::from_str("/"));
                proof {
                    assert(stack.deep_view() =~= seq![root_marker()]);
                }
            } else {
                proof {
                    reveal_strlit("/");
                    reveal_strlit("..");
                    assert("/"@ =~= root_marker());
                    assert(".."@ =~= seq!['.', '.']);
                    assert(names_view[k as int] != seq!['.', '.']);
                    assert(names_view[k as int] != root_marker());
                }
                stack.push(name.clone());
                proof {
                    assert(stack.deep_view() =~= pre_stack.push(names_view[k as int]));
                }
            }
            k = k + 1;
        }
        proof {
            assert(comps.take(comps.len() as int) =~= comps);
        }

        // Phase 3: join the surviving components back into one string.
        let ghost kept = stack.deep_view();
        let mut r = String::new();
        let mut m: usize = 0;
        while m < stack.len()
            invariant
                kept == stack.deep_view(),
                kept.len() == stack@.len(),
                forall|j: int| 0 <= j < kept.len() ==> kept[j] == stack[j]@,
                m <= kept.len(),
                r@ == join_components(kept.take(m as int)),
            decreases kept.len() - m,
        {
            proof {
                assert(kept.take(m + 1).drop_last() =~= kept.take(m as int));
                assert(kept.take(m + 1).last() == kept[m as int]);
                if m == 0 {
                    assert(kept.take(1) =~= seq![kept[0]]);
                }
            }
            if m == 0 {
                r.append(stack[0].as_str());
                proof {
                    assert(join_components(kept.take(1)) == kept[0]);
                    assert(Seq::<char>::empty() + kept[0] =~= kept[0]);
                }
            } else {
                let rlen = r.as_str().unicode_len();
                if rlen > 0 && r.as_str().get_char(rlen - 1) == '/' {
                    r.append(stack[m].as_str());
                } else {
                    r.push('/');
                    r.append(stack[m].as_str());
                    proof {
                        assert(join_components(kept.take(m as int)) + seq!['/'] + kept[m as int]
                            =~= join_components(kept.take(m as int)).push('/') + kept[m as int]);
                    }
                }
            }
            m = m + 1;
        }
        proof {
            assert(kept.take(kept.len() as int) =~= kept);
        }
        r
    }

    /// Resolves the `cd` argument to the directory to change into, already
    /// normalized. The surrounding program performs the actual change and
    /// refreshes the working directory from the host.
    pub fn resolve_cd_target(&self, args: &[String]) -> (r: String)
        ensures
            r@ == spec_normalize_path(spec_cd_target(*self, args.deep_view())),
    {
        let target: String = if args.len() == 0 {
            proof {
                assert(args.deep_view().len() == 0);
            }
            self.home_dir.clone()
        } else {
            proof {
                assert(args.deep_view()[0] == args[0]@);
            }
            let first = &args[0];
            if text::str_eq(first.as_str(), "~") || text::str_eq(first.as_str(), "$HOME") {
                self.home_dir.clone()
            } else if first.as_str().unicode_len() > 0 && first.as_str().get_char(0) == '/' {
                first.clone()
            } else {
                let mut t = self.current_dir.clone();
                t.push('/');
                t.append(first.as_str());
                proof {
                    assert(t@ =~= self.current_dir@ + seq!['/'] + first@);
                }
                t
            }
        };
        self.normalize_path(target.as_str())
    }
}

/// Whether the accumulated part survives as a component (non-empty and not
/// `.`).
fn keep_name(cur: &String) -> (r: bool)
    ensures
        r == keep_component(cur@),
{
    proof {
        reveal_strlit(".");
        assert("."@ =~= seq!['.']);
    }
    !cur.as_str().is_empty() && !text::str_eq(cur.as_str(), ".")
}

} // verus!
