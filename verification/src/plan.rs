//! What a build has to do: which sources are compiled, which object
//! files are linked, and which kept warnings are shown again.

use vstd::prelude::*;
use vstd::string::*;
use vstd::seq_lib::*;
use crate::build_env::{BuildEnvironment, BuildError, DependencyBuilder, PchOption};
use crate::text::texts;
use crate::edit_times::{memo_after_decision, rebuild_needed, should_build_artifact, PathTimes};
use crate::paths::{relative_part, strip_root, under};
use crate::task::{
    compiles_in,
    left_to_pch_compile,
    memo_after_object,
    object_reusable,
    CxxTask,
    Task,
};
use crate::text::{concat2, str_eq};
use crate::toolchain_paths::{decimal, decimal_of};

verus! {

/// What is done with one source file.
#[derive(Clone, Copy, PartialEq, Eq, Debug, Structural)]
pub enum SourceDecision {
    /// It is compiled.
    Compile,
    /// Its object file is kept; `replay` says whether the warnings kept
    /// from its last compile are still good and are shown again.
    Keep { replay: bool },
    /// It is the source of the precompiled header: the compile that
    /// generates the header has dealt with it.
    LeftToPchCompile,
}

/// Where the warnings of the last compile of `source` are kept.
pub open spec fn warnings_file(env: &BuildEnvironment, source: Seq<char>) -> Seq<char> {
    env.artifact_of(source, env.warning_cache_path@, "warnings"@)
}

/// The decision for `source` with the oracle's memo after it, or the
/// error that stops the build. The source of the precompiled header is
/// left to the compile that generates the header. Any other source is
/// compiled unless its object file can be taken; the kept warnings are good
/// when the source's descriptor is not stale and nothing the source depends
/// on is newer than they are.
pub open spec fn decision_of(
    env: &BuildEnvironment,
    memo: Map<Seq<char>, u64>,
    source: Seq<char>,
    pch: PchOption,
) -> Result<(SourceDecision, Map<Seq<char>, u64>), BuildError> {
    if left_to_pch_compile(env, source, pch) {
        Ok((SourceDecision::LeftToPchCompile, memo))
    } else {
        decision_of_other(env, memo, source, pch)
    }
}

/// The decision for a source that is not left to the compile that
/// generates the precompiled header.
pub open spec fn decision_of_other(
    env: &BuildEnvironment,
    memo: Map<Seq<char>, u64>,
    source: Seq<char>,
    pch: PchOption,
) -> Result<(SourceDecision, Map<Seq<char>, u64>), BuildError> {
    let m1 = memo_after_object(env, memo, source, pch);
    match object_reusable(env, memo, source, pch) {
        Err(e) => Err(e),
        Ok(None) => Ok((SourceDecision::Compile, m1)),
        Ok(Some(_)) => {
            let m2 = env.memo_after_discovery(m1, source);
            match env.discovered(m1, source) {
                Err(e) => Err(e),
                Ok(None) => Ok((SourceDecision::Keep { replay: false }, m2)),
                Ok(Some(found)) => Ok(
                    (
                        SourceDecision::Keep {
                            replay: !rebuild_needed(
                                m2,
                                env.disk@,
                                env.config_path@,
                                seq![source] + found,
                                seq![warnings_file(env, source)],
                            ),
                        },
                        memo_after_decision(
                            m2,
                            env.disk@,
                            env.config_path@,
                            seq![source] + found,
                            seq![warnings_file(env, source)],
                            seq![warnings_file(env, source)],
                        ),
                    ),
                ),
            }
        },
    }
}

/// Decides what is done with one source file.
pub fn decide_source(env: &BuildEnvironment, oracle: &mut PathTimes, source: &str, pch: PchOption) -> (r:
    Result<SourceDecision, BuildError>)
    requires
        compiles_in(env, source@),
    ensures
        match r {
            Ok(d) => decision_of(env, old(oracle)@, source@, pch) == Ok::<
                (SourceDecision, Map<Seq<char>, u64>),
                BuildError,
            >((d, final(oracle)@)),
            Err(e) => decision_of(env, old(oracle)@, source@, pch) == Err::<
                (SourceDecision, Map<Seq<char>, u64>),
                BuildError,
            >(e),
        },
{
    let is_pch = match strip_root(source, env.src_dir_path.as_str()) {
        Some(relative) => str_eq(relative.as_str(), "pch.cpp"),
        None => false,
    };
    if is_pch && !matches!(pch, PchOption::GeneratePch) {
        return Ok(SourceDecision::LeftToPchCompile);
    }
    let task = CxxTask::compile(source, pch);
    match task.previous_valid_run(env, oracle) {
        Err(e) => Err(e),
        Ok(None) => Ok(SourceDecision::Compile),
        Ok(Some(_)) => {
            match env.discover_src_deps(oracle, source) {
                Err(e) => Err(e),
                Ok(None) => Ok(SourceDecision::Keep { replay: false }),
                Ok(Some(found)) => {
                    let dependencies = DependencyBuilder::new().file(source).files(&found).build();
                    assert(texts(dependencies@) =~= seq![source@] + texts(found@));
                    let kept = env.get_artifact_path(
                        source,
                        env.warning_cache_path.as_str(),
                        "warnings",
                    );
                    let stale = should_build_artifact(
                        oracle,
                        &env.disk,
                        env.config_path.as_str(),
                        &dependencies,
                        kept.as_str(),
                    );
                    Ok(SourceDecision::Keep { replay: !stale })
                },
            }
        },
    }
}

/// What a build does with its sources.
#[derive(Clone, Debug)]
pub struct Plan {
    /// The object file of every source, in the order of the sources.
    pub obj_paths: Vec<String>,
    /// The sources that are compiled.
    pub sources: Vec<String>,
    /// The files of kept warnings that are shown again.
    pub replay: Vec<String>,
}

/// A plan as a value.
pub struct PlanView {
    pub obj_paths: Seq<Seq<char>>,
    pub sources: Seq<Seq<char>>,
    pub replay: Seq<Seq<char>>,
}

impl View for Plan {
    type V = PlanView;

    open spec fn view(&self) -> PlanView {
        PlanView {
            obj_paths: texts(self.obj_paths@),
            sources: texts(self.sources@),
            replay: texts(self.replay@),
        }
    }
}

/// The plan with what the decision `d` for `source` adds to it.
pub open spec fn with_decision(
    env: &BuildEnvironment,
    plan: PlanView,
    source: Seq<char>,
    d: SourceDecision,
) -> PlanView {
    PlanView {
        obj_paths: plan.obj_paths.push(env.artifact_of(source, env.objs_path@, "obj"@)),
        sources: if d == SourceDecision::Compile {
            plan.sources.push(source)
        } else {
            plan.sources
        },
        replay: if d == (SourceDecision::Keep { replay: true }) {
            plan.replay.push(warnings_file(env, source))
        } else {
            plan.replay
        },
    }
}

/// The plan for `sources`, decided one after the other, with the
/// oracle's memo after the last; or the first error.
pub open spec fn plan_of(
    env: &BuildEnvironment,
    memo: Map<Seq<char>, u64>,
    sources: Seq<Seq<char>>,
    pch: PchOption,
) -> Result<(PlanView, Map<Seq<char>, u64>), BuildError>
    decreases sources.len(),
{
    if sources.len() == 0 {
        Ok((PlanView { obj_paths: Seq::empty(), sources: Seq::empty(), replay: Seq::empty() }, memo))
    } else {
        match plan_of(env, memo, sources.drop_last(), pch) {
            Err(e) => Err(e),
            Ok((plan, m)) => match decision_of(env, m, sources.last(), pch) {
                Err(e) => Err(e),
                Ok((d, after)) => Ok((with_decision(env, plan, sources.last(), d), after)),
            },
        }
    }
}

proof fn lemma_error_stays(
    env: &BuildEnvironment,
    memo: Map<Seq<char>, u64>,
    sources: Seq<Seq<char>>,
    pch: PchOption,
    i: int,
)
    requires
        0 <= i <= sources.len(),
        plan_of(env, memo, sources.subrange(0, i), pch).is_err(),
    ensures
        plan_of(env, memo, sources, pch) == plan_of(env, memo, sources.subrange(0, i), pch),
    decreases sources.len() - i,
{
    if i < sources.len() {
        let next = sources.subrange(0, i + 1);
        assert(next.drop_last() =~= sources.subrange(0, i));
        lemma_error_stays(env, memo, sources, pch, i + 1);
    } else {
        assert(sources.subrange(0, i) =~= sources);
    }
}

/// Goes through the sources in order and decides for each whether it is
/// compiled. The first error ends the planning.
pub fn assemble_sources_to_rebuild(
    env: &BuildEnvironment,
    oracle: &mut PathTimes,
    sources: &Vec<String>,
    pch: PchOption,
) -> (r: Result<Plan, BuildError>)
    requires
        forall|i: int| 0 <= i < sources@.len() ==> compiles_in(env, #[trigger] sources@[i]@),
    ensures
        match r {
            Ok(plan) => plan_of(env, old(oracle)@, texts(sources@), pch) == Ok::<
                (PlanView, Map<Seq<char>, u64>),
                BuildError,
            >((plan@, final(oracle)@)),
            Err(e) => plan_of(env, old(oracle)@, texts(sources@), pch) == Err::<
                (PlanView, Map<Seq<char>, u64>),
                BuildError,
            >(e),
        },
{
    let ghost start = oracle@;
    let ghost all = texts(sources@);
    let mut plan = Plan { obj_paths: Vec::new(), sources: Vec::new(), replay: Vec::new() };
    let mut i: usize = 0;
    assert(all.subrange(0, 0) =~= Seq::<Seq<char>>::empty());
    assert(plan@.obj_paths =~= Seq::<Seq<char>>::empty());
    assert(plan@.sources =~= Seq::<Seq<char>>::empty());
    assert(plan@.replay =~= Seq::<Seq<char>>::empty());
    while i < sources.len()
        invariant
            i <= sources@.len(),
            all == texts(sources@),
            start == old(oracle)@,
            forall|i: int| 0 <= i < sources@.len() ==> compiles_in(env, #[trigger] sources@[i]@),
            plan_of(env, start, all.subrange(0, i as int), pch) == Ok::<
                (PlanView, Map<Seq<char>, u64>),
                BuildError,
            >((plan@, oracle@)),
        decreases sources@.len() - i,
    {
        let source = sources[i].as_str();
        let ghost before = plan@;
        let ghost here = oracle@;
        proof {
            let next = all.subrange(0, i + 1);
            assert(next.drop_last() =~= all.subrange(0, i as int));
            assert(next.last() == source@);
        }
        match decide_source(env, oracle, source, pch) {
            Err(e) => {
                proof {
                    assert(decision_of(env, here, source@, pch) == Err::<
                        (SourceDecision, Map<Seq<char>, u64>),
                        BuildError,
                    >(e));
                    assert(plan_of(env, start, all.subrange(0, i + 1), pch) == Err::<
                        (PlanView, Map<Seq<char>, u64>),
                        BuildError,
                    >(e));
                    lemma_error_stays(env, start, all, pch, i + 1);
                }
                return Err(e);
            },
            Ok(d) => {
                let ghost objs = plan.obj_paths@;
                let ghost compiled = plan.sources@;
                let ghost shown = plan.replay@;
                let obj = env.get_artifact_path(source, env.objs_path.as_str(), "obj");
                plan.obj_paths.push(obj);
                assert(texts(plan.obj_paths@) =~= texts(objs).push(obj@));
                match d {
                    SourceDecision::Compile => {
                        plan.sources.push(sources[i].clone());
                        assert(texts(plan.sources@) =~= texts(compiled).push(source@));
                    },
                    SourceDecision::LeftToPchCompile => {},
                    SourceDecision::Keep { replay } => {
                        if replay {
                            let kept = env.get_artifact_path(
                                source,
                                env.warning_cache_path.as_str(),
                                "warnings",
                            );
                            plan.replay.push(kept);
                            assert(texts(plan.replay@) =~= texts(shown).push(kept@));
                        }
                    },
                }
                assert(plan@ == with_decision(env, before, source@, d));
            },
        }
        i = i + 1;
    }
    assert(all.subrange(0, i as int) =~= all);
    Ok(plan)
}

/// What is decided for the source at `i` when its turn comes, if the
/// planning gets that far.
pub open spec fn decision_at(
    env: &BuildEnvironment,
    memo: Map<Seq<char>, u64>,
    sources: Seq<Seq<char>>,
    pch: PchOption,
    i: int,
) -> Option<SourceDecision> {
    match plan_of(env, memo, sources.subrange(0, i), pch) {
        Ok((_, m)) => match decision_of(env, m, sources[i], pch) {
            Ok((d, _)) => Some(d),
            Err(_) => None,
        },
        Err(_) => None,
    }
}

/// Where every source is kept, nothing is compiled: a build that follows
/// a build, with nothing changed between them, plans no compile.
pub proof fn lemma_kept_sources_compile_nothing(
    env: &BuildEnvironment,
    memo: Map<Seq<char>, u64>,
    sources: Seq<Seq<char>>,
    pch: PchOption,
)
    requires
        plan_of(env, memo, sources, pch).is_ok(),
        forall|i: int|
            0 <= i < sources.len() ==> (#[trigger] decision_at(env, memo, sources, pch, i))
                != Some(SourceDecision::Compile),
    ensures
        plan_of(env, memo, sources, pch).unwrap().0.sources == Seq::<Seq<char>>::empty(),
    decreases sources.len(),
{
    if sources.len() > 0 {
        let pre = sources.drop_last();
        assert forall|i: int| 0 <= i < pre.len() implies (#[trigger] decision_at(
            env,
            memo,
            pre,
            pch,
            i,
        )) != Some(SourceDecision::Compile) by {
            assert(pre.subrange(0, i) =~= sources.subrange(0, i));
            assert(decision_at(env, memo, sources, pch, i) != Some(SourceDecision::Compile));
        }
        lemma_kept_sources_compile_nothing(env, memo, pre, pch);
        assert(sources.subrange(0, sources.len() - 1) =~= pre);
        assert(decision_at(env, memo, sources, pch, sources.len() - 1) != Some(
            SourceDecision::Compile,
        ));
    }
}

/// A source for which the decision is to compile stands among the
/// sources that the plan compiles.
pub proof fn lemma_compiled_source_is_planned(
    env: &BuildEnvironment,
    memo: Map<Seq<char>, u64>,
    sources: Seq<Seq<char>>,
    pch: PchOption,
    i: int,
)
    requires
        plan_of(env, memo, sources, pch).is_ok(),
        0 <= i < sources.len(),
        decision_at(env, memo, sources, pch, i) == Some(SourceDecision::Compile),
    ensures
        plan_of(env, memo, sources, pch).unwrap().0.sources.contains(sources[i]),
    decreases sources.len(),
{
    let pre = sources.drop_last();
    let before = plan_of(env, memo, pre, pch).unwrap().0.sources;
    let after = plan_of(env, memo, sources, pch).unwrap().0.sources;
    if i == sources.len() - 1 {
        assert(sources.subrange(0, i) =~= pre);
        assert(after == before.push(sources[i]));
        assert(after[before.len() as int] == sources[i]);
    } else {
        assert(pre.subrange(0, i) =~= sources.subrange(0, i));
        lemma_compiled_source_is_planned(env, memo, pre, pch, i);
        let k = before.lemma_contains_to_index(sources[i]);
        assert(after[k] == sources[i]);
    }
}

/// Whether one of `sources` is the precompiled header's source at the
/// root of the source directory.
pub fn has_pch_source(env: &BuildEnvironment, sources: &Vec<String>) -> (r: bool)
    ensures
        r == exists|i: int|
            0 <= i < sources@.len() && under((#[trigger] sources@[i])@, env.src_dir_path@)
                && relative_part(sources@[i]@, env.src_dir_path@) == "pch.cpp"@,
{
    let mut i: usize = 0;
    while i < sources.len()
        invariant
            i <= sources@.len(),
            forall|j: int|
                0 <= j < i ==> !(under((#[trigger] sources@[j])@, env.src_dir_path@)
                    && relative_part(sources@[j]@, env.src_dir_path@) == "pch.cpp"@),
        decreases sources@.len() - i,
    {
        match strip_root(sources[i].as_str(), env.src_dir_path.as_str()) {
            Some(relative) => {
                if str_eq(relative.as_str(), "pch.cpp") {
                    return true;
                }
            },
            None => {},
        }
        i = i + 1;
    }
    false
}

/// How many compiles succeeded and how many failed.
pub open spec fn tally_of(results: Seq<bool>) -> (nat, nat)
    decreases results.len(),
{
    if results.len() == 0 {
        (0, 0)
    } else {
        let rest = tally_of(results.drop_last());
        if results.last() {
            ((rest.0 + 1) as nat, rest.1)
        } else {
            (rest.0, (rest.1 + 1) as nat)
        }
    }
}

/// Counts the compiles that succeeded and those that failed.
pub fn tally(results: &Vec<bool>) -> (r: (usize, usize))
    ensures
        r.0 == tally_of(results@).0,
        r.1 == tally_of(results@).1,
        r.0 + r.1 == results@.len(),
{
    let mut succeeded: usize = 0;
    let mut failed: usize = 0;
    let mut i: usize = 0;
    assert(results@.subrange(0, 0) =~= Seq::<bool>::empty());
    while i < results.len()
        invariant
            i <= results@.len(),
            succeeded == tally_of(results@.subrange(0, i as int)).0,
            failed == tally_of(results@.subrange(0, i as int)).1,
            succeeded + failed == i,
        decreases results@.len() - i,
    {
        proof {
            let next = results@.subrange(0, i + 1);
            assert(next.drop_last() =~= results@.subrange(0, i as int));
            assert(next.last() == results@[i as int]);
        }
        if results[i] {
            succeeded = succeeded + 1;
        } else {
            failed = failed + 1;
        }
        i = i + 1;
    }
    assert(results@.subrange(0, i as int) =~= results@);
    (succeeded, failed)
}

/// The line that sums up the compiles where one failed.
pub open spec fn summary_of(succeeded: nat, failed: nat) -> Seq<char> {
    "Compiled: "@ + decimal_of(succeeded) + "/"@ + decimal_of(succeeded + failed)
        + " | Failed: "@ + decimal_of(failed) + "/"@ + decimal_of(succeeded + failed)
}

/// The line that sums up the compiles, shown where at least one failed.
pub fn failure_summary(results: &Vec<bool>) -> (r: Option<String>)
    ensures
        match r {
            Some(line) => tally_of(results@).1 > 0 && line@ == summary_of(
                tally_of(results@).0,
                tally_of(results@).1,
            ),
            None => tally_of(results@).1 == 0,
        },
{
    let (succeeded, failed) = tally(results);
    if failed == 0 {
        return None;
    }
    let total = decimal(results.len() as u64);
    let mut line = concat2("Compiled: ", decimal(succeeded as u64).as_str());
    line.append("/");
    line.append(total.as_str());
    line.append(" | Failed: ");
    line.append(decimal(failed as u64).as_str());
    line.append("/");
    line.append(total.as_str());
    Some(line)
}

} // verus!
