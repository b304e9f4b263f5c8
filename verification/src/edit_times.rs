//! Last-write times of files, the memo that answers for them during a
//! build, and the decision whether artifacts are out of date.

use vstd::prelude::*;
use vstd::string::*;
use vstd::seq_lib::*;
use crate::src_paths::{extension, extension_of};
use crate::text::{str_eq, texts};

verus! {

spec fn entry_from(e: Seq<(String, Option<u64>)>, k: Seq<char>, i: int) -> Option<u64>
    decreases e.len() - i,
{
    if i < 0 || i >= e.len() {
        None
    } else if e[i].0@ == k {
        e[i].1
    } else {
        entry_from(e, k, i + 1)
    }
}

proof fn lemma_entry_first(e: Seq<(String, Option<u64>)>, k: Seq<char>, start: int, i: int)
    requires
        0 <= start <= i < e.len(),
        e[i].0@ == k,
        forall|j: int| start <= j < i ==> e[j].0@ != k,
    ensures
        entry_from(e, k, start) == e[i].1,
    decreases i - start,
{
    if start < i {
        lemma_entry_first(e, k, start + 1, i);
    }
}

proof fn lemma_entry_none(e: Seq<(String, Option<u64>)>, k: Seq<char>, start: int)
    requires
        0 <= start,
        forall|j: int| start <= j < e.len() ==> e[j].0@ != k,
    ensures
        entry_from(e, k, start).is_none(),
    decreases e.len() - start,
{
    if start < e.len() {
        lemma_entry_none(e, k, start + 1);
    }
}

proof fn lemma_entry_agree(
    a: Seq<(String, Option<u64>)>,
    b: Seq<(String, Option<u64>)>,
    k: Seq<char>,
    start: int,
)
    requires
        0 <= start,
        a.len() == b.len(),
        forall|j: int|
            start <= j < a.len() ==> (a[j].0@ == k) == (b[j].0@ == k) && (a[j].0@ == k ==> a[j].1
                == b[j].1),
    ensures
        entry_from(a, k, start) == entry_from(b, k, start),
    decreases a.len() - start,
{
    if start < a.len() && a[start].0@ != k {
        lemma_entry_agree(a, b, k, start + 1);
    }
}

proof fn lemma_entry_push(
    e: Seq<(String, Option<u64>)>,
    x: (String, Option<u64>),
    k: Seq<char>,
    start: int,
)
    requires
        0 <= start <= e.len(),
        forall|j: int| 0 <= j < e.len() ==> e[j].0@ != x.0@,
    ensures
        entry_from(e.push(x), k, start) == (if k == x.0@ {
            x.1
        } else {
            entry_from(e, k, start)
        }),
    decreases e.len() - start,
{
    if start < e.len() {
        assert(e.push(x)[start] == e[start]);
        if e[start].0@ != k {
            lemma_entry_push(e, x, k, start + 1);
        }
    } else {
        assert(e.push(x)[start] == x);
        assert(entry_from(e.push(x), k, start + 1).is_none());
    }
}

/// A finite table from paths to last-write times.
pub struct PathTimes {
    entries: Vec<(String, Option<u64>)>,
}

impl View for PathTimes {
    type V = Map<Seq<char>, u64>;

    /// The table as a map from the text of a path to its time.
    open spec fn view(&self) -> Map<Seq<char>, u64> {
        Map::new(|k: Seq<char>| self.time_of(k).is_some(), |k: Seq<char>| self.time_of(k).unwrap())
    }
}

impl PathTimes {
    /// The time that the table holds for `k`, if any.
    pub closed spec fn time_of(&self, k: Seq<char>) -> Option<u64> {
        entry_from(self.entries@, k, 0)
    }

    /// The empty table.
    pub fn new() -> (r: PathTimes)
        ensures
            r@ == Map::<Seq<char>, u64>::empty(),
    {
        let r = PathTimes { entries: Vec::new() };
        assert(r@ =~= Map::<Seq<char>, u64>::empty());
        r
    }

    fn position(&self, path: &str) -> (r: Option<usize>)
        ensures
            match r {
                Some(i) => i < self.entries@.len() && self.entries@[i as int].0@ == path@ && (
                forall|j: int| 0 <= j < i ==> self.entries@[j].0@ != path@),
                None => forall|j: int| 0 <= j < self.entries@.len() ==> self.entries@[j].0@ != path@,
            },
    {
        let mut i: usize = 0;
        while i < self.entries.len()
            invariant
                i <= self.entries@.len(),
                forall|j: int| 0 <= j < i ==> self.entries@[j].0@ != path@,
            decreases self.entries@.len() - i,
        {
            if str_eq(self.entries[i].0.as_str(), path) {
                return Some(i);
            }
            i = i + 1;
        }
        None
    }

    /// The time held for `path`, if any.
    pub fn get(&self, path: &str) -> (r: Option<u64>)
        ensures
            r == (if self@.contains_key(path@) {
                Some(self@[path@])
            } else {
                None
            }),
    {
        match self.position(path) {
            Some(i) => {
                proof {
                    lemma_entry_first(self.entries@, path@, 0, i as int);
                }
                self.entries[i].1
            },
            None => {
                proof {
                    lemma_entry_none(self.entries@, path@, 0);
                }
                None
            },
        }
    }

    fn set(&mut self, path: &str, value: Option<u64>)
        ensures
            forall|k: Seq<char>|
                final(self).time_of(k) == (if k == path@ {
                    value
                } else {
                    old(self).time_of(k)
                }),
    {
        let ghost before = self.entries@;
        match self.position(path) {
            Some(i) => {
                self.entries[i] = (String::from_str(path), value);
                assert forall|k: Seq<char>|
                    entry_from(self.entries@, k, 0) == (if k == path@ {
                        value
                    } else {
                        entry_from(before, k, 0)
                    }) by {
                    if k == path@ {
                        lemma_entry_first(self.entries@, k, 0, i as int);
                    } else {
                        lemma_entry_agree(self.entries@, before, k, 0);
                    }
                }
            },
            None => {
                let entry = (String::from_str(path), value);
                self.entries.push(entry);
                assert forall|k: Seq<char>|
                    entry_from(self.entries@, k, 0) == (if k == path@ {
                        value
                    } else {
                        entry_from(before, k, 0)
                    }) by {
                    lemma_entry_push(before, entry, k, 0);
                }
            },
        }
    }

    /// Holds `time` for `path` from now on.
    pub fn record(&mut self, path: &str, time: u64)
        ensures
            final(self)@ == old(self)@.insert(path@, time),
    {
        self.set(path, Some(time));
        assert(self@ =~= old(self)@.insert(path@, time));
    }

    /// Holds nothing for `path` from now on.
    pub fn forget(&mut self, path: &str)
        ensures
            final(self)@ == old(self)@.remove(path@),
    {
        self.set(path, None);
        assert(self@ =~= old(self)@.remove(path@));
    }
}

/// What the oracle answers for `k`: the memoised time; else the time on
/// disk; else, for a file that does not exist, `fallback`.
pub open spec fn edit_time_of(
    memo: Map<Seq<char>, u64>,
    disk: Map<Seq<char>, u64>,
    k: Seq<char>,
    fallback: u64,
) -> u64 {
    if memo.contains_key(k) {
        memo[k]
    } else if disk.contains_key(k) {
        disk[k]
    } else {
        fallback
    }
}

/// The memo after each of `paths` was asked for with `fallback`.
pub open spec fn queried(
    memo: Map<Seq<char>, u64>,
    disk: Map<Seq<char>, u64>,
    paths: Seq<Seq<char>>,
    fallback: u64,
) -> Map<Seq<char>, u64> {
    Map::new(
        |k: Seq<char>| memo.contains_key(k) || paths.contains(k),
        |k: Seq<char>| edit_time_of(memo, disk, k, fallback),
    )
}

/// The answers for `paths`, in order.
pub open spec fn times_of(
    memo: Map<Seq<char>, u64>,
    disk: Map<Seq<char>, u64>,
    paths: Seq<Seq<char>>,
    fallback: u64,
) -> Seq<u64> {
    paths.map_values(|k: Seq<char>| edit_time_of(memo, disk, k, fallback))
}

/// The greatest of `times`; 0 for none.
pub open spec fn newest(times: Seq<u64>) -> u64
    decreases times.len(),
{
    if times.len() == 0 {
        0
    } else if times.last() > newest(times.drop_last()) {
        times.last()
    } else {
        newest(times.drop_last())
    }
}

/// The least of `times`; 0 for none.
pub open spec fn oldest(times: Seq<u64>) -> u64
    decreases times.len(),
{
    if times.len() == 0 {
        0
    } else if times.len() == 1 || times.last() < oldest(times.drop_last()) {
        times.last()
    } else {
        oldest(times.drop_last())
    }
}

/// Artifacts are out of date when the newest dependency is strictly newer
/// than the oldest artifact.
pub open spec fn out_of_date(dependency_times: Seq<u64>, artifact_times: Seq<u64>) -> bool {
    newest(dependency_times) > oldest(artifact_times)
}

/// The dependencies of every artifact of a project: those given and the
/// project's manifest.
pub open spec fn with_manifest(dependencies: Seq<Seq<char>>, manifest: Seq<char>) -> Seq<
    Seq<char>,
> {
    dependencies.push(manifest)
}

/// The memo after the dependencies were asked for, a missing one counting
/// as newest.
pub open spec fn after_dependencies(
    memo: Map<Seq<char>, u64>,
    disk: Map<Seq<char>, u64>,
    manifest: Seq<char>,
    dependencies: Seq<Seq<char>>,
) -> Map<Seq<char>, u64> {
    queried(memo, disk, with_manifest(dependencies, manifest), u64::MAX)
}

/// Whether `measured` must be rebuilt from `dependencies`: the newest of
/// the dependencies and the manifest, a missing one counting as newest, is
/// strictly newer than the oldest of `measured`, a missing one counting as
/// oldest. A path asked for as a dependency keeps that answer as an artifact.
pub open spec fn rebuild_needed(
    memo: Map<Seq<char>, u64>,
    disk: Map<Seq<char>, u64>,
    manifest: Seq<char>,
    dependencies: Seq<Seq<char>>,
    measured: Seq<Seq<char>>,
) -> bool {
    out_of_date(
        times_of(memo, disk, with_manifest(dependencies, manifest), u64::MAX),
        times_of(after_dependencies(memo, disk, manifest, dependencies), disk, measured, 0),
    )
}

/// The memo after the decision on `measured`: every path asked for is
/// held, and on a decision to rebuild every one of `artifacts` is forgotten.
pub open spec fn memo_after_decision(
    memo: Map<Seq<char>, u64>,
    disk: Map<Seq<char>, u64>,
    manifest: Seq<char>,
    dependencies: Seq<Seq<char>>,
    measured: Seq<Seq<char>>,
    artifacts: Seq<Seq<char>>,
) -> Map<Seq<char>, u64> {
    let asked = queried(
        after_dependencies(memo, disk, manifest, dependencies),
        disk,
        measured,
        0,
    );
    if rebuild_needed(memo, disk, manifest, dependencies, measured) {
        asked.remove_keys(artifacts.to_set())
    } else {
        asked
    }
}

/// The last-write time of `path`: the memoised answer where there is one;
/// else the time on `disk`, or `fallback` for a file that is not there,
/// which is memoised.
pub fn edit_time(memo: &mut PathTimes, disk: &PathTimes, path: &str, fallback: u64) -> (r: u64)
    ensures
        r == edit_time_of(old(memo)@, disk@, path@, fallback),
        final(memo)@ == old(memo)@.insert(path@, r),
{
    match memo.get(path) {
        Some(time) => {
            assert(memo@ =~= memo@.insert(path@, time));
            time
        },
        None => {
            let time = match disk.get(path) {
                Some(time) => time,
                None => fallback,
            };
            memo.record(path, time);
            time
        },
    }
}

/// The decision on times alone: whether the newest of `dependency_times`
/// is strictly newer than the oldest of `artifact_times`, each 0 for none.
pub fn should_rebuild(dependency_times: &Vec<u64>, artifact_times: &Vec<u64>) -> (r: bool)
    ensures
        r == out_of_date(dependency_times@, artifact_times@),
{
    let mut newest_dependency: u64 = 0;
    let mut i: usize = 0;
    while i < dependency_times.len()
        invariant
            i <= dependency_times@.len(),
            newest_dependency == newest(dependency_times@.subrange(0, i as int)),
        decreases dependency_times@.len() - i,
    {
        if dependency_times[i] > newest_dependency {
            newest_dependency = dependency_times[i];
        }
        i = i + 1;
        assert(dependency_times@.subrange(0, i as int).drop_last()
            =~= dependency_times@.subrange(0, i - 1));
    }
    assert(dependency_times@.subrange(0, i as int) =~= dependency_times@);
    let mut oldest_artifact: u64 = 0;
    let mut j: usize = 0;
    while j < artifact_times.len()
        invariant
            j <= artifact_times@.len(),
            oldest_artifact == oldest(artifact_times@.subrange(0, j as int)),
        decreases artifact_times@.len() - j,
    {
        if j == 0 || artifact_times[j] < oldest_artifact {
            oldest_artifact = artifact_times[j];
        }
        j = j + 1;
        assert(artifact_times@.subrange(0, j as int).drop_last() =~= artifact_times@.subrange(
            0,
            j - 1,
        ));
    }
    assert(artifact_times@.subrange(0, j as int) =~= artifact_times@);
    newest_dependency > oldest_artifact
}

fn ask_all(memo: &mut PathTimes, disk: &PathTimes, paths: &Vec<String>, fallback: u64) -> (r: Vec<
    u64,
>)
    ensures
        r@ == times_of(old(memo)@, disk@, texts(paths@), fallback),
        final(memo)@ == queried(old(memo)@, disk@, texts(paths@), fallback),
{
    let ghost start = memo@;
    let mut out: Vec<u64> = Vec::new();
    let mut i: usize = 0;
    assert(memo@ =~= queried(start, disk@, texts(paths@).subrange(0, 0), fallback));
    assert(out@ =~= times_of(start, disk@, texts(paths@).subrange(0, 0), fallback));
    while i < paths.len()
        invariant
            i <= paths@.len(),
            memo@ == queried(start, disk@, texts(paths@).subrange(0, i as int), fallback),
            out@ == times_of(start, disk@, texts(paths@).subrange(0, i as int), fallback),
        decreases paths@.len() - i,
    {
        let ghost before = texts(paths@).subrange(0, i as int);
        let time = edit_time(memo, disk, paths[i].as_str(), fallback);
        out.push(time);
        i = i + 1;
        proof {
            broadcast use lemma_seq_contains_after_push;

            let upto = texts(paths@).subrange(0, i as int);
            assert(upto =~= before.push(paths@[i - 1]@));
            assert(time == edit_time_of(start, disk@, paths@[i - 1]@, fallback));
            assert(memo@ =~= queried(start, disk@, upto, fallback));
            assert(out@ =~= times_of(start, disk@, upto, fallback));
        }
    }
    assert(texts(paths@).subrange(0, i as int) =~= texts(paths@));
    out
}

/// Decides whether `measured` must be rebuilt from `dependencies` and the
/// manifest, asking the oracle for each path, and on a decision to rebuild
/// makes the oracle forget every one of `artifacts`.
pub fn should_build_artifacts_impl(
    memo: &mut PathTimes,
    disk: &PathTimes,
    manifest_path: &str,
    dependencies: &Vec<String>,
    measured: &Vec<String>,
    artifacts: &Vec<String>,
) -> (r: bool)
    ensures
        r == rebuild_needed(
            old(memo)@,
            disk@,
            manifest_path@,
            texts(dependencies@),
            texts(measured@),
        ),
        final(memo)@ == memo_after_decision(
            old(memo)@,
            disk@,
            manifest_path@,
            texts(dependencies@),
            texts(measured@),
            texts(artifacts@),
        ),
{
    let ghost start = memo@;
    let ghost deps = texts(dependencies@);
    let mut dependency_times = ask_all(memo, disk, dependencies, u64::MAX);
    let ghost mid = memo@;
    let manifest_time = edit_time(memo, disk, manifest_path, u64::MAX);
    dependency_times.push(manifest_time);
    proof {
        broadcast use lemma_seq_contains_after_push;

        assert(manifest_time == edit_time_of(start, disk@, manifest_path@, u64::MAX));
        assert(dependency_times@ =~= times_of(
            start,
            disk@,
            with_manifest(deps, manifest_path@),
            u64::MAX,
        ));
        assert(memo@ =~= after_dependencies(start, disk@, manifest_path@, deps));
    }
    let artifact_times = ask_all(memo, disk, measured, 0);
    let rebuild = should_rebuild(&dependency_times, &artifact_times);
    if rebuild {
        let ghost asked = memo@;
        let mut i: usize = 0;
        assert(memo@ =~= asked.remove_keys(texts(artifacts@).subrange(0, 0).to_set()));
        while i < artifacts.len()
            invariant
                i <= artifacts@.len(),
                memo@ == asked.remove_keys(texts(artifacts@).subrange(0, i as int).to_set()),
            decreases artifacts@.len() - i,
        {
            let ghost before = texts(artifacts@).subrange(0, i as int);
            memo.forget(artifacts[i].as_str());
            i = i + 1;
            proof {
                broadcast use lemma_seq_contains_after_push;

                let upto = texts(artifacts@).subrange(0, i as int);
                assert(upto =~= before.push(artifacts@[i - 1]@));
                assert(memo@ =~= asked.remove_keys(upto.to_set()));
            }
        }
        assert(texts(artifacts@).subrange(0, i as int) =~= texts(artifacts@));
    }
    rebuild
}

/// The decision for one artifact.
pub fn should_build_artifact(
    memo: &mut PathTimes,
    disk: &PathTimes,
    manifest_path: &str,
    dependencies: &Vec<String>,
    artifact_path: &str,
) -> (r: bool)
    ensures
        r == rebuild_needed(
            old(memo)@,
            disk@,
            manifest_path@,
            texts(dependencies@),
            seq![artifact_path@],
        ),
        final(memo)@ == memo_after_decision(
            old(memo)@,
            disk@,
            manifest_path@,
            texts(dependencies@),
            seq![artifact_path@],
            seq![artifact_path@],
        ),
{
    let artifacts: Vec<String> = vec![String::from_str(artifact_path)];
    assert(texts(artifacts@) =~= seq![artifact_path@]);
    should_build_artifacts_impl(memo, disk, manifest_path, dependencies, &artifacts, &artifacts)
}

/// The extension of `path` is one of `extensions`.
pub open spec fn has_extension_among(path: Seq<char>, extensions: Seq<Seq<char>>) -> bool {
    match extension_of(path) {
        Some(e) => extensions.contains(e),
        None => false,
    }
}

/// Those of `paths` whose extension is one of `extensions`, in order.
pub open spec fn with_extensions(paths: Seq<Seq<char>>, extensions: Seq<Seq<char>>) -> Seq<
    Seq<char>,
>
    decreases paths.len(),
{
    if paths.len() == 0 {
        Seq::empty()
    } else if has_extension_among(paths.last(), extensions) {
        with_extensions(paths.drop_last(), extensions).push(paths.last())
    } else {
        with_extensions(paths.drop_last(), extensions)
    }
}

fn extension_among(path: &str, extensions: &Vec<String>) -> (r: bool)
    ensures
        r == has_extension_among(path@, texts(extensions@)),
{
    match extension(path) {
        Some(e) => {
            let mut i: usize = 0;
            while i < extensions.len()
                invariant
                    i <= extensions@.len(),
                    extension_of(path@) == Some(e@),
                    forall|j: int| 0 <= j < i ==> texts(extensions@)[j] != e@,
                decreases extensions@.len() - i,
            {
                if str_eq(extensions[i].as_str(), e.as_str()) {
                    assert(texts(extensions@)[i as int] == e@);
                    return true;
                }
                i = i + 1;
            }
            false
        },
        None => false,
    }
}

/// The decision for the artifacts of a directory. `entries` are the paths
/// of what the directory holds, `None` where there is no such directory:
/// then the artifacts must be built. Else those of the entries with one of
/// `extensions` decide, and on a decision to rebuild every entry is forgotten.
pub fn should_build_artifacts(
    memo: &mut PathTimes,
    disk: &PathTimes,
    manifest_path: &str,
    dependencies: &Vec<String>,
    entries: Option<&Vec<String>>,
    extensions: &Vec<String>,
) -> (r: bool)
    ensures
        match entries {
            None => r && final(memo)@ == old(memo)@,
            Some(found) => {
                let measured = with_extensions(texts(found@), texts(extensions@));
                &&& r == rebuild_needed(
                    old(memo)@,
                    disk@,
                    manifest_path@,
                    texts(dependencies@),
                    measured,
                )
                &&& final(memo)@ == memo_after_decision(
                    old(memo)@,
                    disk@,
                    manifest_path@,
                    texts(dependencies@),
                    measured,
                    texts(found@),
                )
            },
        },
{
    let found = match entries {
        Some(found) => found,
        None => {
            return true;
        },
    };
    let ghost all = texts(found@);
    let mut measured: Vec<String> = Vec::new();
    let mut i: usize = 0;
    assert(all.subrange(0, 0) =~= Seq::<Seq<char>>::empty());
    assert(texts(measured@) =~= Seq::<Seq<char>>::empty());
    while i < found.len()
        invariant
            i <= found@.len(),
            all == texts(found@),
            texts(measured@) == with_extensions(all.subrange(0, i as int), texts(extensions@)),
        decreases found@.len() - i,
    {
        proof {
            let next = all.subrange(0, i + 1);
            assert(next.drop_last() =~= all.subrange(0, i as int));
            assert(next.last() == found@[i as int]@);
        }
        if extension_among(found[i].as_str(), extensions) {
            let ghost before = measured@;
            measured.push(found[i].clone());
            assert(texts(measured@) =~= texts(before).push(found@[i as int]@));
        }
        i = i + 1;
    }
    assert(all.subrange(0, i as int) =~= all);
    should_build_artifacts_impl(memo, disk, manifest_path, dependencies, &measured, found)
}

/// What the oracle answers for the artifact `a` once the dependencies
/// were asked for: a missing artifact counts as oldest.
pub open spec fn artifact_time(
    memo: Map<Seq<char>, u64>,
    disk: Map<Seq<char>, u64>,
    manifest: Seq<char>,
    dependencies: Seq<Seq<char>>,
    a: Seq<char>,
) -> u64 {
    edit_time_of(after_dependencies(memo, disk, manifest, dependencies), disk, a, 0)
}

/// What the oracle answers for the dependency `d`: a missing dependency
/// counts as newest.
pub open spec fn dependency_time(
    memo: Map<Seq<char>, u64>,
    disk: Map<Seq<char>, u64>,
    d: Seq<char>,
) -> u64 {
    edit_time_of(memo, disk, d, u64::MAX)
}

proof fn lemma_newest_bounds(times: Seq<u64>, i: int)
    requires
        0 <= i < times.len(),
    ensures
        times[i] <= newest(times),
    decreases times.len(),
{
    if i < times.len() - 1 {
        lemma_newest_bounds(times.drop_last(), i);
    }
}

proof fn lemma_oldest_bounds(times: Seq<u64>, i: int)
    requires
        0 <= i < times.len(),
    ensures
        oldest(times) <= times[i],
    decreases times.len(),
{
    if i < times.len() - 1 {
        lemma_oldest_bounds(times.drop_last(), i);
    }
}

proof fn lemma_newest_is_one(times: Seq<u64>) -> (i: int)
    requires
        times.len() > 0,
    ensures
        0 <= i < times.len(),
        times[i] == newest(times),
    decreases times.len(),
{
    if times.len() == 1 {
        assert(newest(times.drop_last()) == 0);
        0
    } else if times.last() > newest(times.drop_last()) {
        times.len() - 1
    } else {
        lemma_newest_is_one(times.drop_last())
    }
}

proof fn lemma_oldest_is_one(times: Seq<u64>) -> (i: int)
    requires
        times.len() > 0,
    ensures
        0 <= i < times.len(),
        times[i] == oldest(times),
    decreases times.len(),
{
    if times.len() == 1 || times.last() < oldest(times.drop_last()) {
        times.len() - 1
    } else {
        lemma_oldest_is_one(times.drop_last())
    }
}

/// A dependency that is newer than one of the artifacts forces the
/// rebuild, whatever the other times are. The manifest is such a dependency
/// of every artifact.
pub proof fn lemma_newer_dependency_forces_rebuild(
    memo: Map<Seq<char>, u64>,
    disk: Map<Seq<char>, u64>,
    manifest: Seq<char>,
    dependencies: Seq<Seq<char>>,
    measured: Seq<Seq<char>>,
    d: Seq<char>,
    a: Seq<char>,
)
    requires
        dependencies.contains(d) || d == manifest,
        measured.contains(a),
        dependency_time(memo, disk, d) > artifact_time(memo, disk, manifest, dependencies, a),
    ensures
        rebuild_needed(memo, disk, manifest, dependencies, measured),
{
    let all = with_manifest(dependencies, manifest);
    let dep_times = times_of(memo, disk, all, u64::MAX);
    let after = after_dependencies(memo, disk, manifest, dependencies);
    let art_times = times_of(after, disk, measured, 0);
    let i = if dependencies.contains(d) {
        dependencies.lemma_contains_to_index(d)
    } else {
        dependencies.len() as int
    };
    assert(all[i] == d);
    assert(dep_times[i] == dependency_time(memo, disk, d));
    lemma_newest_bounds(dep_times, i);
    let j = measured.lemma_contains_to_index(a);
    assert(art_times[j] == artifact_time(memo, disk, manifest, dependencies, a));
    lemma_oldest_bounds(art_times, j);
}

/// A manifest that is newer than one of the artifacts forces the rebuild,
/// whatever the dependencies and their times are.
pub proof fn lemma_manifest_change_forces_rebuild(
    memo: Map<Seq<char>, u64>,
    disk: Map<Seq<char>, u64>,
    manifest: Seq<char>,
    dependencies: Seq<Seq<char>>,
    measured: Seq<Seq<char>>,
    a: Seq<char>,
)
    requires
        measured.contains(a),
        dependency_time(memo, disk, manifest) > artifact_time(
            memo,
            disk,
            manifest,
            dependencies,
            a,
        ),
    ensures
        rebuild_needed(memo, disk, manifest, dependencies, measured),
{
    lemma_newer_dependency_forces_rebuild(memo, disk, manifest, dependencies, measured, manifest, a);
}

/// Artifacts of which each is at least as new as every dependency and the
/// manifest are kept: a build that follows a build, with nothing changed
/// between them, rebuilds nothing.
pub proof fn lemma_up_to_date_is_kept(
    memo: Map<Seq<char>, u64>,
    disk: Map<Seq<char>, u64>,
    manifest: Seq<char>,
    dependencies: Seq<Seq<char>>,
    measured: Seq<Seq<char>>,
)
    requires
        measured.len() > 0,
        forall|d: Seq<char>, a: Seq<char>|
            (dependencies.contains(d) || d == manifest) && measured.contains(a)
                ==> #[trigger] dependency_time(memo, disk, d) <= #[trigger] artifact_time(
                memo,
                disk,
                manifest,
                dependencies,
                a,
            ),
    ensures
        !rebuild_needed(memo, disk, manifest, dependencies, measured),
{
    let all = with_manifest(dependencies, manifest);
    let dep_times = times_of(memo, disk, all, u64::MAX);
    let after = after_dependencies(memo, disk, manifest, dependencies);
    let art_times = times_of(after, disk, measured, 0);
    let i = lemma_newest_is_one(dep_times);
    let j = lemma_oldest_is_one(art_times);
    let d = all[i];
    let a = measured[j];
    if i < dependencies.len() {
        assert(dependencies[i] == d);
        assert(dependencies.contains(d));
    }
    assert(measured.contains(a));
    assert(art_times[j] == artifact_time(memo, disk, manifest, dependencies, a));
    assert(dep_times[i] == dependency_time(memo, disk, d));
}

/// The decision for an artifact looks only at the files it was asked
/// about: two disks that agree on the dependencies, the manifest and the
/// artifacts give the same decision, so a change to a file that is none of
/// them leaves the artifact as it was.
pub proof fn lemma_decision_ignores_other_files(
    memo: Map<Seq<char>, u64>,
    disk: Map<Seq<char>, u64>,
    changed: Map<Seq<char>, u64>,
    manifest: Seq<char>,
    dependencies: Seq<Seq<char>>,
    measured: Seq<Seq<char>>,
)
    requires
        forall|k: Seq<char>|
            dependencies.contains(k) || k == manifest || measured.contains(k) ==> (
            disk.contains_key(k) == changed.contains_key(k) && (disk.contains_key(k) ==> disk[k]
                == changed[k])),
    ensures
        rebuild_needed(memo, disk, manifest, dependencies, measured) == rebuild_needed(
            memo,
            changed,
            manifest,
            dependencies,
            measured,
        ),
{
    broadcast use lemma_seq_contains_after_push;

    let all = with_manifest(dependencies, manifest);
    assert forall|i: int| 0 <= i < all.len() implies edit_time_of(memo, disk, all[i], u64::MAX)
        == edit_time_of(memo, changed, all[i], u64::MAX) by {
        assert(all.contains(all[i]));
    }
    assert(times_of(memo, disk, all, u64::MAX) =~= times_of(memo, changed, all, u64::MAX));
    let after1 = after_dependencies(memo, disk, manifest, dependencies);
    let after2 = after_dependencies(memo, changed, manifest, dependencies);
    assert(after1 =~= after2);
    assert forall|j: int| 0 <= j < measured.len() implies edit_time_of(
        after1,
        disk,
        measured[j],
        0,
    ) == edit_time_of(after2, changed, measured[j], 0) by {
        assert(measured.contains(measured[j]));
    }
    assert(times_of(after1, disk, measured, 0) =~= times_of(after2, changed, measured, 0));
}

} // verus!
