//! The multi-stage pipeline plan.
//!
//! A pipeline of segments is turned into an ordered plan of stages, each
//! stage an external process description: the mapped executable name and
//! arguments, where its standard input comes from, whether its standard
//! output is captured for the next stage, and whether the stage is awaited.
//! Builtins are deliberately not consulted inside a pipeline: every stage is
//! an external process. The surrounding program spawns the stages strictly
//! in order, so each stage's captured output exists before the next stage
//! binds its input to it; only the last stage inherits the terminal's output
//! and is awaited synchronously.

use vstd::prelude::*;
use vstd::string::*;
use crate::command_execution::{copy_args, spec_map_command};
use crate::platform::PlatformIdentity;
use crate::shell::Shell;

verus! {

/// One planned pipeline stage.
pub struct StagePlan {
    /// The executable to spawn, after command mapping.
    pub name: String,
    /// Its arguments, after command mapping.
    pub args: Vec<String>,
    /// Whether standard input binds to the previous stage's captured output
    /// (every stage but the first) or is inherited from the terminal.
    pub stdin_from_previous: bool,
    /// Whether standard output is captured (piped) for the next stage
    /// (every stage but the last) or inherited by the terminal.
    pub stdout_piped: bool,
    /// Whether the stage is awaited synchronously (only the last).
    pub awaited: bool,
}

/// Whether stage `st` is the correct plan for segment `seg`, standing at
/// position `i` of `n` stages.
pub open spec fn stage_matches(
    platform: PlatformIdentity,
    seg: Seq<Seq<char>>,
    st: StagePlan,
    i: int,
    n: int,
) -> bool {
    let (name, args) = spec_map_command(platform, seg[0], seg.drop_first());
    &&& st.name@ == name
    &&& st.args.deep_view() == args
    &&& st.stdin_from_previous == (i > 0)
    &&& st.stdout_piped == (i < n - 1)
    &&& st.awaited == (i == n - 1)
}

/// Whether `stages` is the correct plan for the whole segment list.
pub open spec fn pipeline_plan_matches(
    platform: PlatformIdentity,
    segs: Seq<Seq<Seq<char>>>,
    stages: Seq<StagePlan>,
) -> bool {
    &&& stages.len() == segs.len()
    &&& forall|i: int|
        0 <= i < segs.len() ==> #[trigger] stage_matches(
            platform,
            segs[i],
            stages[i],
            i,
            segs.len() as int,
        )
}

/// The arguments of a segment: everything after the command name.
pub(crate) fn tail_args(seg: &Vec<String>) -> (r: Vec<String>)
    requires
        seg@.len() > 0,
    ensures
        r.deep_view() == seg.deep_view().drop_first(),
{
    let ghost full = seg.deep_view();
    let mut r: Vec<String> = Vec::new();
    proof {
        assert(r.deep_view() =~= full.subrange(1, 1));
    }
    let mut i: usize = 1;
    while i < seg.len()
        invariant
            full == seg.deep_view(),
            full.len() == seg@.len(),
            forall|j: int| 0 <= j < full.len() ==> full[j] == seg[j]@,
            1 <= i <= seg@.len(),
            r.deep_view() == full.subrange(1, i as int),
        decreases seg@.len() - i,
    {
        let ghost pre = r.deep_view();
        r.push(seg[i].clone());
        proof {
            assert(r.deep_view() =~= pre.push(full[i as int]));
            assert(full.subrange(1, i + 1) =~= full.subrange(1, i as int).push(full[i as int]));
        }
        i = i + 1;
    }
    proof {
        assert(full.subrange(1, full.len() as int) =~= full.drop_first());
    }
    r
}

impl Shell {
    /// Plans a multi-stage pipeline: each segment is mapped for the platform
    /// and becomes one external stage, with standard input bound to the
    /// previous stage's captured output for every stage but the first,
    /// standard output captured for every stage but the last, and only the
    /// last stage awaited.
    pub fn plan_pipeline(&self, segments: &Vec<Vec<String>>) -> (stages: Vec<StagePlan>)
        requires
            forall|i: int|
                0 <= i < segments.deep_view().len() ==> #[trigger] segments.deep_view()[i].len()
                    > 0,
        ensures
            pipeline_plan_matches(self.shell_type, segments.deep_view(), stages@),
    {
        let ghost segs = segments.deep_view();
        let n = segments.len();
        let mut stages: Vec<StagePlan> = Vec::new();
        let mut i: usize = 0;
        while i < n
            invariant
                segs == segments.deep_view(),
                segs.len() == segments@.len(),
                n == segments@.len(),
                forall|j: int| 0 <= j < segs.len() ==> segs[j] == segments[j].deep_view(),
                forall|j: int| 0 <= j < segs.len() ==> #[trigger] segs[j].len() > 0,
                i <= n,
                stages@.len() == i,
                forall|j: int|
                    0 <= j < i ==> #[trigger] stage_matches(
                        self.shell_type,
                        segs[j],
                        stages@[j],
                        j,
                        segs.len() as int,
                    ),
            decreases n - i,
        {
            let seg = &segments[i];
            proof {
                assert(segs[i as int] == seg.deep_view());
                assert(seg.deep_view()[0] == seg[0]@);
            }
            let args = tail_args(seg);
            let args_slice = args.as_slice();
            proof {
                assert(args_slice.deep_view() =~= args.deep_view());
            }
            let (name, margs) = self.map_command(seg[0].as_str(), args_slice);
            let stage = StagePlan {
                name,
                args: margs,
                stdin_from_previous: i > 0,
                stdout_piped: i + 1 < n,
                awaited: i + 1 == n,
            };
            stages.push(stage);
            i = i + 1;
        }
        stages
    }
}

} // verus!
