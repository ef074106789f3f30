//! The steps of the driver, from a build that was accepted to its end.

use vstd::prelude::*;

use crate::arguments::{BuildOptions, BuildSettings};
use crate::target::{is_android, is_android_target};

verus! {

/// A step of the driver.
#[derive(Clone, Copy, Debug, PartialEq, Eq, Structural)]
pub enum DriverStep {
    /// Accepts the build that the command line asks for.
    Accept,
    /// Finds the NDK and checks that it has what is needed of it.
    FindNdk,
    /// Finds Zig and verifies it.
    FindZig,
    /// Says what there is to say about an Android target.
    Warn,
    /// Makes the wrappers.
    MakeWrappers,
    /// Runs Cargo to its end.
    RunCargo,
    /// Removes the wrappers.
    RemoveWrappers,
}

/// The step that follows a step. A step that failed ends the run, but Cargo's
/// failure does not keep the wrappers from being removed.
pub open spec fn following(build: BuildSettings, done: DriverStep, failed: bool) -> Option<
    DriverStep,
> {
    let find_zig_or_warn = if build.android.ndk_fallback {
        DriverStep::Warn
    } else {
        DriverStep::FindZig
    };
    match done {
        DriverStep::RunCargo => Some(DriverStep::RemoveWrappers),
        DriverStep::RemoveWrappers => None,
        _ => if failed {
            None
        } else {
            Some(
                match done {
                    DriverStep::Accept => if is_android(build.cargo_target) {
                        DriverStep::FindNdk
                    } else {
                        find_zig_or_warn
                    },
                    DriverStep::FindNdk => find_zig_or_warn,
                    DriverStep::FindZig => DriverStep::Warn,
                    DriverStep::Warn => DriverStep::MakeWrappers,
                    _ => DriverStep::RunCargo,
                },
            )
        },
    }
}

/// The step that follows a step, if one does.
pub fn next_step(options: &BuildOptions, done: DriverStep, failed: bool) -> (next: Option<
    DriverStep,
>)
    ensures
        next == following(options@, done, failed),
{
    if done == DriverStep::RunCargo {
        return Some(DriverStep::RemoveWrappers);
    }
    if failed {
        return None;
    }
    let find_zig_or_warn = if options.android.ndk_fallback {
        DriverStep::Warn
    } else {
        DriverStep::FindZig
    };
    match done {
        DriverStep::Accept => if is_android_target(options.cargo_target.as_str()) {
            Some(DriverStep::FindNdk)
        } else {
            Some(find_zig_or_warn)
        },
        DriverStep::FindNdk => Some(find_zig_or_warn),
        DriverStep::FindZig => Some(DriverStep::Warn),
        DriverStep::Warn => Some(DriverStep::MakeWrappers),
        DriverStep::MakeWrappers => Some(DriverStep::RunCargo),
        DriverStep::RunCargo => Some(DriverStep::RemoveWrappers),
        DriverStep::RemoveWrappers => None,
    }
}

// ---------------------------------------------------------------------------
// Runs

/// Whether steps, each with whether it failed, are those of a run so far.
pub open spec fn is_run(build: BuildSettings, run: Seq<(DriverStep, bool)>) -> bool {
    &&& run.len() > 0
    &&& run[0] == (DriverStep::Accept, false)
    &&& forall|i: int|
        #![trigger run[i]]
        0 < i < run.len() ==> following(build, run[i - 1].0, run[i - 1].1) == Some(run[i].0)
}

/// Whether nothing follows the last step of a run.
pub open spec fn is_over(build: BuildSettings, run: Seq<(DriverStep, bool)>) -> bool {
    following(build, run.last().0, run.last().1) is None
}

/// Where a step that is not the first stands in a run, the one in front of it
/// was followed by it.
proof fn lemma_step_before(build: BuildSettings, run: Seq<(DriverStep, bool)>, i: int)
    requires
        is_run(build, run),
        0 <= i < run.len(),
        run[i].0 != DriverStep::Accept,
    ensures
        i > 0,
        following(build, run[i - 1].0, run[i - 1].1) == Some(run[i].0),
{
    assert(run[i].0 != run[0].0);
    assert(i > 0);
}

/// Whether a step stands in a run in front of a place and did not fail.
pub open spec fn succeeded_before(
    run: Seq<(DriverStep, bool)>,
    step: DriverStep,
    place: int,
) -> bool {
    exists|i: int| 0 <= i < place && #[trigger] run[i] == (step, false)
}

/// Cargo starts behind wrappers that were made, behind a Zig that was verified
/// unless the NDK takes its place, and behind an NDK that was checked where the
/// target is Android's.
pub proof fn law_cargo_starts_behind_its_tools(
    build: BuildSettings,
    run: Seq<(DriverStep, bool)>,
    k: int,
)
    requires
        is_run(build, run),
        0 <= k < run.len(),
        run[k].0 == DriverStep::RunCargo,
    ensures
        succeeded_before(run, DriverStep::MakeWrappers, k),
        build.android.ndk_fallback || succeeded_before(run, DriverStep::FindZig, k),
        is_android(build.cargo_target) ==> succeeded_before(run, DriverStep::FindNdk, k),
{
    lemma_step_before(build, run, k);
    assert(run[k - 1] == (DriverStep::MakeWrappers, false));
    lemma_step_before(build, run, k - 1);
    assert(run[k - 2].0 == DriverStep::Warn);
    lemma_step_before(build, run, k - 2);
    if !build.android.ndk_fallback {
        assert(run[k - 3] == (DriverStep::FindZig, false));
        lemma_step_before(build, run, k - 3);
        assert(is_android(build.cargo_target) ==> run[k - 4] == (DriverStep::FindNdk, false));
    } else {
        assert(is_android(build.cargo_target) ==> run[k - 3] == (DriverStep::FindNdk, false));
    }
}

/// The first failure ends a run: nothing follows a step that failed but for the
/// removal of the wrappers behind Cargo.
pub proof fn law_first_failure_ends_the_run(
    build: BuildSettings,
    run: Seq<(DriverStep, bool)>,
    i: int,
)
    requires
        is_run(build, run),
        0 <= i < run.len() - 1,
        run[i].1,
    ensures
        run[i].0 == DriverStep::RunCargo,
        run[i + 1].0 == DriverStep::RemoveWrappers,
        run.len() == i + 2,
{
    assert(following(build, run[i].0, run[i].1) == Some(run[i + 1].0));
    if run.len() > i + 2 {
        assert(following(build, run[i + 1].0, run[i + 1].1) == Some(run[i + 2].0));
    }
}

/// A run that is over has removed the wrappers if it came to start Cargo,
/// whether Cargo failed or not.
pub proof fn law_wrappers_are_removed_behind_cargo(
    build: BuildSettings,
    run: Seq<(DriverStep, bool)>,
    k: int,
)
    requires
        is_run(build, run),
        is_over(build, run),
        0 <= k < run.len(),
        run[k].0 == DriverStep::RunCargo,
    ensures
        run.last().0 == DriverStep::RemoveWrappers,
        run.len() == k + 2,
{
    assert(k < run.len() - 1);
    assert(following(build, run[k].0, run[k].1) == Some(run[k + 1].0));
    if run.len() > k + 2 {
        assert(following(build, run[k + 1].0, run[k + 1].1) == Some(run[k + 2].0));
    }
}

/// How far a step is from the end of a run.
spec fn steps_left(step: DriverStep) -> nat {
    match step {
        DriverStep::Accept => 6,
        DriverStep::FindNdk => 5,
        DriverStep::FindZig => 4,
        DriverStep::Warn => 3,
        DriverStep::MakeWrappers => 2,
        DriverStep::RunCargo => 1,
        DriverStep::RemoveWrappers => 0,
    }
}

proof fn lemma_steps_left(build: BuildSettings, run: Seq<(DriverStep, bool)>, i: int)
    requires
        is_run(build, run),
        0 <= i < run.len(),
    ensures
        steps_left(run[i].0) + i <= 6,
    decreases i,
{
    if i > 0 {
        lemma_steps_left(build, run, i - 1);
        assert(following(build, run[i - 1].0, run[i - 1].1) == Some(run[i].0));
    }
}

/// A run ends: no step is done twice.
pub proof fn law_runs_end(build: BuildSettings, run: Seq<(DriverStep, bool)>, i: int, j: int)
    requires
        is_run(build, run),
        0 <= i < j < run.len(),
    ensures
        run[i].0 != run[j].0,
        run.len() <= 7,
{
    lemma_steps_left(build, run, run.len() - 1);
    lemma_steps_fall(build, run, i, j);
}

proof fn lemma_steps_fall(build: BuildSettings, run: Seq<(DriverStep, bool)>, i: int, j: int)
    requires
        is_run(build, run),
        0 <= i < j < run.len(),
    ensures
        steps_left(run[j].0) < steps_left(run[i].0),
    decreases j - i,
{
    assert(following(build, run[j - 1].0, run[j - 1].1) == Some(run[j].0));
    if i < j - 1 {
        lemma_steps_fall(build, run, i, j - 1);
    }
}

} // verus!
