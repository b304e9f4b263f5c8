//! The graph of the projects of a build: the root project and the
//! projects it depends on, checked and put in build order.

use vstd::prelude::*;
use vstd::string::*;
use vstd::seq_lib::*;
use crate::text::texts;
use crate::proj_config::{contains_platform, OutputType, ProjectConfig};
use crate::text::str_eq;

verus! {

/// A project whose manifest was read.
#[derive(Clone, Debug)]
pub struct LoadedProject {
    /// The canonical path of the manifest.
    pub config_path: String,
    pub config: ProjectConfig,
    /// The canonical paths of the manifests of the projects depended on,
    /// in the order of the manifest's dependencies.
    pub dependency_paths: Vec<String>,
}

/// Why a project graph is refused.
#[derive(Clone, Copy, PartialEq, Eq, Debug, Structural)]
pub enum GraphError {
    /// There is no root project.
    NoProject,
    /// One manifest was loaded twice.
    DuplicateProject,
    /// A project names one dependency twice.
    DuplicateDependency,
    /// Two projects have the same name.
    NameCollision,
    /// A dependency was not loaded.
    MissingProject,
    /// The dependencies go in a circle.
    Cycle,
    /// A dependency is no static library.
    NotStaticLibrary,
    /// A dependency's language options do not go with the root's.
    IncompatibleOptions,
    /// A dependency does not support a target that the root supports.
    MissingTarget,
}

/// The paths of the manifests, in order.
pub open spec fn manifest_paths(t: Seq<LoadedProject>) -> Seq<Seq<char>> {
    t.map_values(|p: LoadedProject| p.config_path@)
}

/// The names of the projects, in order.
pub open spec fn project_names(t: Seq<LoadedProject>) -> Seq<Seq<char>> {
    t.map_values(|p: LoadedProject| p.config.name@)
}

/// Some project names one dependency twice.
pub open spec fn repeats_dependency(t: Seq<LoadedProject>) -> bool {
    exists|p: int| 0 <= p < t.len() && !texts((#[trigger] t[p]).dependency_paths@).no_duplicates()
}

/// The manifest at `path` is among those loaded.
pub open spec fn loaded(t: Seq<LoadedProject>, path: Seq<char>) -> bool {
    manifest_paths(t).contains(path)
}

/// Some dependency was not loaded.
pub open spec fn lacks_dependency(t: Seq<LoadedProject>) -> bool {
    exists|p: int, k: int|
        0 <= p < t.len() && 0 <= k < t[p].dependency_paths@.len() && !loaded(
            t,
            #[trigger] t[p].dependency_paths@[k]@,
        )
}

/// Project `a` names project `b` as a dependency.
pub open spec fn depends_on(t: Seq<LoadedProject>, a: int, b: int) -> bool {
    &&& 0 <= a < t.len()
    &&& 0 <= b < t.len()
    &&& texts(t[a].dependency_paths@).contains(t[b].config_path@)
}

/// Project `p` stands in `order`.
pub open spec fn occurs_in(order: Seq<usize>, p: int) -> bool {
    exists|i: int| 0 <= i < order.len() && #[trigger] order[i] as int == p
}

/// `order` is a build order: it holds every project once, and each
/// project after all that it depends on.
pub open spec fn is_build_order(t: Seq<LoadedProject>, order: Seq<usize>) -> bool {
    &&& order.no_duplicates()
    &&& forall|i: int| 0 <= i < order.len() ==> (#[trigger] order[i]) < t.len()
    &&& forall|p: int| 0 <= p < t.len() ==> occurs_in(order, p)
    &&& forall|i: int, j: int|
        0 <= i < order.len() && 0 <= j < order.len() && depends_on(
            t,
            #[trigger] order[i] as int,
            #[trigger] order[j] as int,
        ) ==> j < i
}

/// `walk` goes from a project along dependencies back to that project.
pub open spec fn is_cycle(t: Seq<LoadedProject>, walk: Seq<int>) -> bool {
    &&& walk.len() >= 2
    &&& walk.first() == walk.last()
    &&& forall|k: int| 0 <= k < walk.len() - 1 ==> depends_on(t, #[trigger] walk[k], walk[k + 1])
}

/// A project other than the root is no static library.
pub open spec fn has_other_output(t: Seq<LoadedProject>) -> bool {
    exists|d: int|
        1 <= d < t.len() && (#[trigger] t[d]).config.output_type != OutputType::StaticLibrary
}

/// A project other than the root has language options that do not go
/// with the root's.
pub open spec fn has_incompatible(t: Seq<LoadedProject>) -> bool {
    exists|d: int|
        1 <= d < t.len() && !(#[trigger] t[d]).config.cxx_options.compatible(
            t[0].config.cxx_options,
        )
}

/// A project other than the root does not support a target of the root.
pub open spec fn lacks_target(t: Seq<LoadedProject>) -> bool {
    exists|d: int, x: int|
        1 <= d < t.len() && 0 <= x < t[0].config.supported_targets@.len() && !(
        #[trigger] t[d]).config.supported_targets@.contains(
            #[trigger] t[0].config.supported_targets@[x],
        )
}

/// Why the graph is refused, if it is. The root is the first project.
pub open spec fn verdict(t: Seq<LoadedProject>) -> Option<GraphError> {
    if t.len() == 0 {
        Some(GraphError::NoProject)
    } else if !manifest_paths(t).no_duplicates() {
        Some(GraphError::DuplicateProject)
    } else if repeats_dependency(t) {
        Some(GraphError::DuplicateDependency)
    } else if !project_names(t).no_duplicates() {
        Some(GraphError::NameCollision)
    } else if lacks_dependency(t) {
        Some(GraphError::MissingProject)
    } else if !exists|order: Seq<usize>| is_build_order(t, order) {
        Some(GraphError::Cycle)
    } else if has_other_output(t) {
        Some(GraphError::NotStaticLibrary)
    } else if has_incompatible(t) {
        Some(GraphError::IncompatibleOptions)
    } else if lacks_target(t) {
        Some(GraphError::MissingTarget)
    } else {
        None
    }
}

spec fn place_in(order: Seq<usize>, p: int) -> int {
    choose|i: int| 0 <= i < order.len() && #[trigger] order[i] as int == p
}

proof fn lemma_place(t: Seq<LoadedProject>, order: Seq<usize>, p: int)
    requires
        is_build_order(t, order),
        0 <= p < t.len(),
    ensures
        0 <= place_in(order, p) < order.len(),
        order[place_in(order, p)] == p,
{
    assert(occurs_in(order, p));
}

proof fn lemma_walk_descends(t: Seq<LoadedProject>, order: Seq<usize>, walk: Seq<int>, k: int)
    requires
        is_build_order(t, order),
        is_cycle(t, walk),
        1 <= k < walk.len(),
    ensures
        0 <= walk[k] < t.len(),
        place_in(order, walk[k]) < place_in(order, walk[0]),
    decreases k,
{
    assert(depends_on(t, walk[k - 1], walk[k]));
    lemma_place(t, order, walk[k - 1]);
    lemma_place(t, order, walk[k]);
    let i = place_in(order, walk[k - 1]);
    let j = place_in(order, walk[k]);
    assert(depends_on(t, order[i] as int, order[j] as int));
    if k > 1 {
        lemma_walk_descends(t, order, walk, k - 1);
    }
}

/// Where the dependencies go in a circle there is no build order.
pub proof fn lemma_cycle_has_no_order(t: Seq<LoadedProject>, walk: Seq<int>, order: Seq<usize>)
    requires
        is_cycle(t, walk),
    ensures
        !is_build_order(t, order),
{
    if is_build_order(t, order) {
        lemma_walk_descends(t, order, walk, walk.len() - 1);
    }
}

/// A graph whose dependencies go in a circle is refused.
pub proof fn lemma_cycle_is_rejected(t: Seq<LoadedProject>, walk: Seq<int>)
    requires
        is_cycle(t, walk),
    ensures
        verdict(t).is_some(),
{
    assert forall|order: Seq<usize>| !is_build_order(t, order) by {
        lemma_cycle_has_no_order(t, walk, order);
    }
}

/// A graph in which two different projects have the same name is refused.
pub proof fn lemma_shared_name_is_rejected(t: Seq<LoadedProject>, a: int, b: int)
    requires
        0 <= a < t.len(),
        0 <= b < t.len(),
        a != b,
        t[a].config.name@ == t[b].config.name@,
    ensures
        verdict(t).is_some(),
{
    assert(project_names(t)[a] == project_names(t)[b]);
}

/// Whether no text occurs twice in `v`.
pub fn all_distinct(v: &Vec<String>) -> (r: bool)
    ensures
        r == texts(v@).no_duplicates(),
{
    let n: usize = v.len();
    let mut i: usize = 0;
    while i < n
        invariant
            n == v@.len(),
            i <= n,
            forall|a: int, b: int|
                0 <= a < i && a < b < n ==> texts(v@)[a] != texts(v@)[b],
        decreases n - i,
    {
        let mut j: usize = i + 1;
        while j < n
            invariant
                n == v@.len(),
                i < n,
                i + 1 <= j <= n,
                forall|b: int| i < b < j ==> texts(v@)[i as int] != texts(v@)[b],
            decreases n - j,
        {
            if str_eq(v[i].as_str(), v[j].as_str()) {
                assert(texts(v@)[i as int] == texts(v@)[j as int]);
                return false;
            }
            j = j + 1;
        }
        i = i + 1;
    }
    assert forall|a: int, b: int|
        0 <= a < texts(v@).len() && 0 <= b < texts(v@).len() && a != b implies texts(v@)[a]
        != texts(v@)[b] by {
        if a < b {
        } else {
            assert(texts(v@)[b] != texts(v@)[a]);
        }
    }
    true
}

/// The index of the project whose manifest lies at `path`.
pub fn project_at(t: &Vec<LoadedProject>, path: &str) -> (r: Option<usize>)
    ensures
        match r {
            Some(i) => i < t@.len() && t@[i as int].config_path@ == path@,
            None => !loaded(t@, path@),
        },
{
    let mut i: usize = 0;
    while i < t.len()
        invariant
            i <= t@.len(),
            forall|j: int| 0 <= j < i ==> manifest_paths(t@)[j] != path@,
        decreases t@.len() - i,
    {
        if str_eq(t[i].config_path.as_str(), path) {
            return Some(i);
        }
        i = i + 1;
    }
    None
}

/// Dependency `k` of project `p` was not loaded, and every dependency
/// before it, in the order of the projects and of their dependencies, was.
pub open spec fn is_first_missing(t: Seq<LoadedProject>, p: int, k: int) -> bool {
    &&& 0 <= p < t.len()
    &&& 0 <= k < t[p].dependency_paths@.len()
    &&& !loaded(t, t[p].dependency_paths@[k]@)
    &&& forall|a: int, b: int|
        0 <= a < p && 0 <= b < t[a].dependency_paths@.len() ==> loaded(
            t,
            #[trigger] t[a].dependency_paths@[b]@,
        )
    &&& forall|b: int| 0 <= b < k ==> loaded(t, #[trigger] t[p].dependency_paths@[b]@)
}

/// The first dependency, in the order of the projects and of their
/// dependencies, whose manifest was not loaded yet; `None` when every
/// dependency was loaded.
pub fn next_missing(t: &Vec<LoadedProject>) -> (r: Option<String>)
    ensures
        match r {
            Some(path) => exists|p: int, k: int|
                is_first_missing(t@, p, k) && path@ == #[trigger] t@[p].dependency_paths@[k]@,
            None => !lacks_dependency(t@),
        },
{
    let mut p: usize = 0;
    while p < t.len()
        invariant
            p <= t@.len(),
            forall|a: int, k: int|
                0 <= a < p && 0 <= k < t@[a].dependency_paths@.len() ==> loaded(
                    t@,
                    #[trigger] t@[a].dependency_paths@[k]@,
                ),
        decreases t@.len() - p,
    {
        let mut k: usize = 0;
        while k < t[p].dependency_paths.len()
            invariant
                p < t@.len(),
                k <= t@[p as int].dependency_paths@.len(),
                forall|a: int, b: int|
                    0 <= a < p && 0 <= b < t@[a].dependency_paths@.len() ==> loaded(
                        t@,
                        #[trigger] t@[a].dependency_paths@[b]@,
                    ),
                forall|b: int|
                    0 <= b < k ==> loaded(t@, #[trigger] t@[p as int].dependency_paths@[b]@),
            decreases t@[p as int].dependency_paths@.len() - k,
        {
            match project_at(t, t[p].dependency_paths[k].as_str()) {
                None => {
                    assert(is_first_missing(t@, p as int, k as int));
                    return Some(t[p].dependency_paths[k].clone());
                },
                Some(i) => {
                    assert(manifest_paths(t@)[i as int] == t@[p as int].dependency_paths@[k as int]@);
                },
            }
            k = k + 1;
        }
        p = p + 1;
    }
    None
}

/// The graph in build order, with what the root is linked against.
#[derive(Clone, Debug)]
pub struct ResolvedGraph {
    /// The projects by their index, each after all it depends on.
    pub order: Vec<usize>,
    /// The link libraries of all projects, each once.
    pub link_libraries: Vec<String>,
}

/// The link libraries that the projects name.
pub open spec fn gathered(t: Seq<LoadedProject>) -> Set<Seq<char>>
    decreases t.len(),
{
    if t.len() == 0 {
        Set::empty()
    } else {
        gathered(t.drop_last()).union(texts(t.last().config.link_libraries@).to_set())
    }
}

spec fn indices_ok(t: Seq<LoadedProject>, idx: Seq<Vec<usize>>) -> bool {
    &&& idx.len() == t.len()
    &&& forall|p: int|
        0 <= p < t.len() ==> (#[trigger] idx[p])@.len() == t[p].dependency_paths@.len()
    &&& forall|p: int, k: int|
        0 <= p < t.len() && 0 <= k < idx[p]@.len() ==> (#[trigger] idx[p]@[k]) < t.len()
            && t[idx[p]@[k] as int].config_path@ == t[p].dependency_paths@[k]@
}

spec fn ready(deps: Seq<usize>, placed: Seq<bool>) -> bool {
    forall|k: int| 0 <= k < deps.len() ==> placed[#[trigger] deps[k] as int]
}

spec fn unplaced(placed: Seq<bool>) -> nat
    decreases placed.len(),
{
    if placed.len() == 0 {
        0
    } else {
        unplaced(placed.drop_last()) + (if placed.last() {
            0nat
        } else {
            1nat
        })
    }
}

proof fn lemma_unplaced_update(placed: Seq<bool>, p: int)
    requires
        0 <= p < placed.len(),
        !placed[p],
    ensures
        unplaced(placed.update(p, true)) + 1 == unplaced(placed),
    decreases placed.len(),
{
    let after = placed.update(p, true);
    if p == placed.len() - 1 {
        assert(after.drop_last() =~= placed.drop_last());
    } else {
        lemma_unplaced_update(placed.drop_last(), p);
        assert(after.drop_last() =~= placed.drop_last().update(p, true));
    }
}

proof fn lemma_unplaced_none(placed: Seq<bool>)
    requires
        unplaced(placed) == 0,
    ensures
        forall|i: int| 0 <= i < placed.len() ==> placed[i],
    decreases placed.len(),
{
    if placed.len() > 0 {
        lemma_unplaced_none(placed.drop_last());
        assert forall|i: int| 0 <= i < placed.len() implies placed[i] by {
            if i < placed.len() - 1 {
                assert(placed.drop_last()[i] == placed[i]);
            }
        }
    }
}

proof fn lemma_unplaced_some(placed: Seq<bool>) -> (u: int)
    requires
        unplaced(placed) > 0,
    ensures
        0 <= u < placed.len(),
        !placed[u],
    decreases placed.len(),
{
    if !placed.last() {
        placed.len() - 1
    } else {
        lemma_unplaced_some(placed.drop_last())
    }
}

proof fn lemma_first_unplaced(o: Seq<usize>, placed: Seq<bool>, i: int) -> (m: int)
    requires
        0 <= i < o.len(),
        !placed[o[i] as int],
    ensures
        0 <= m <= i,
        !placed[o[m] as int],
        forall|j: int| 0 <= j < m ==> placed[#[trigger] o[j] as int],
    decreases i,
{
    if forall|j: int| 0 <= j < i ==> placed[#[trigger] o[j] as int] {
        i
    } else {
        let j = choose|j: int| 0 <= j < i && !placed[#[trigger] o[j] as int];
        lemma_first_unplaced(o, placed, j)
    }
}

proof fn lemma_stuck_has_no_order(
    t: Seq<LoadedProject>,
    idx: Seq<Vec<usize>>,
    placed: Seq<bool>,
    o: Seq<usize>,
    u: int,
)
    requires
        indices_ok(t, idx),
        placed.len() == t.len(),
        0 <= u < t.len(),
        !placed[u],
        forall|p: int| 0 <= p < t.len() ==> placed[p] || !ready((#[trigger] idx[p])@, placed),
    ensures
        !is_build_order(t, o),
{
    if is_build_order(t, o) {
        lemma_place(t, o, u);
        let m = lemma_first_unplaced(o, placed, place_in(o, u));
        let p = o[m] as int;
        assert(!ready(idx[p]@, placed));
        let k = choose|k: int| 0 <= k < idx[p]@.len() && !placed[#[trigger] idx[p]@[k] as int];
        let d = idx[p]@[k] as int;
        lemma_place(t, o, d);
        let jd = place_in(o, d);
        assert(texts(t[p].dependency_paths@)[k] == t[d].config_path@);
        assert(depends_on(t, o[m] as int, o[jd] as int));
        assert(placed[o[jd] as int]);
    }
}

fn is_ready(deps: &Vec<usize>, placed: &Vec<bool>) -> (r: bool)
    requires
        forall|k: int| 0 <= k < deps@.len() ==> (#[trigger] deps@[k]) < placed@.len(),
    ensures
        r == ready(deps@, placed@),
{
    let mut k: usize = 0;
    while k < deps.len()
        invariant
            k <= deps@.len(),
            forall|k: int| 0 <= k < deps@.len() ==> (#[trigger] deps@[k]) < placed@.len(),
            forall|j: int| 0 <= j < k ==> placed@[#[trigger] deps@[j] as int],
        decreases deps@.len() - k,
    {
        if !placed[deps[k]] {
            return false;
        }
        k = k + 1;
    }
    true
}

fn find_ready(idx: &Vec<Vec<usize>>, placed: &Vec<bool>) -> (r: Option<usize>)
    requires
        placed@.len() == idx@.len(),
        forall|p: int, k: int|
            0 <= p < idx@.len() && 0 <= k < idx@[p]@.len() ==> (#[trigger] idx@[p]@[k])
                < idx@.len(),
    ensures
        match r {
            Some(p) => p < idx@.len() && !placed@[p as int] && ready(idx@[p as int]@, placed@),
            None => forall|p: int|
                0 <= p < idx@.len() ==> placed@[p] || !ready((#[trigger] idx@[p])@, placed@),
        },
{
    let mut p: usize = 0;
    while p < idx.len()
        invariant
            p <= idx@.len(),
            placed@.len() == idx@.len(),
            forall|p: int, k: int|
                0 <= p < idx@.len() && 0 <= k < idx@[p]@.len() ==> (#[trigger] idx@[p]@[k])
                    < idx@.len(),
            forall|q: int| 0 <= q < p ==> placed@[q] || !ready((#[trigger] idx@[q])@, placed@),
        decreases idx@.len() - p,
    {
        if !placed[p] && is_ready(&idx[p], placed) {
            return Some(p);
        }
        p = p + 1;
    }
    None
}

spec fn earlier(order: Seq<usize>, i: int, d: usize) -> bool {
    exists|j: int| 0 <= j < i && j < order.len() && #[trigger] order[j] == d
}

spec fn peeled(idx: Seq<Vec<usize>>, placed: Seq<bool>, order: Seq<usize>) -> bool {
    &&& placed.len() == idx.len()
    &&& order.no_duplicates()
    &&& forall|i: int|
        0 <= i < order.len() ==> (#[trigger] order[i]) < idx.len() && placed[order[i] as int]
    &&& forall|p: int| 0 <= p < idx.len() && #[trigger] placed[p] ==> occurs_in(order, p)
    &&& forall|i: int, k: int|
        0 <= i < order.len() && 0 <= k < idx[order[i] as int]@.len() ==> earlier(
            order,
            i,
            #[trigger] idx[order[i] as int]@[k],
        )
}

proof fn lemma_peeled_step(
    idx: Seq<Vec<usize>>,
    placed: Seq<bool>,
    order: Seq<usize>,
    p: usize,
)
    requires
        peeled(idx, placed, order),
        p < idx.len(),
        !placed[p as int],
        ready(idx[p as int]@, placed),
        forall|q: int, k: int|
            0 <= q < idx.len() && 0 <= k < idx[q]@.len() ==> (#[trigger] idx[q]@[k]) < idx.len(),
    ensures
        peeled(idx, placed.update(p as int, true), order.push(p)),
{
    let placed2 = placed.update(p as int, true);
    let order2 = order.push(p);
    assert forall|i: int, j: int| 0 <= i < order2.len() && 0 <= j < order2.len() && i != j implies order2[i] != order2[j] by {
        if i < order.len() {
            assert(placed[order[i] as int]);
        }
        if j < order.len() {
            assert(placed[order[j] as int]);
        }
    }
    assert forall|q: int| 0 <= q < idx.len() && #[trigger] placed2[q] implies occurs_in(
        order2,
        q,
    ) by {
        if q == p {
            assert(order2[order.len() as int] as int == q);
        } else {
            assert(placed[q]);
            let i = choose|i: int| 0 <= i < order.len() && #[trigger] order[i] as int == q;
            assert(order2[i] as int == q);
        }
    }
    assert forall|i: int, k: int|
        0 <= i < order2.len() && 0 <= k < idx[order2[i] as int]@.len() implies earlier(
        order2,
        i,
        #[trigger] idx[order2[i] as int]@[k],
    ) by {
        let d = idx[order2[i] as int]@[k];
        if i < order.len() {
            assert(order2[i] == order[i]);
            assert(earlier(order, i, d));
            let j = choose|j: int| 0 <= j < i && j < order.len() && #[trigger] order[j] == d;
            assert(order2[j] == d);
        } else {
            assert(placed[d as int]);
            assert(occurs_in(order, d as int));
            let j = choose|j: int| 0 <= j < order.len() && #[trigger] order[j] as int == d;
            assert(order2[j] == d);
        }
    }
}

proof fn lemma_peeled_is_order(
    t: Seq<LoadedProject>,
    idx: Seq<Vec<usize>>,
    placed: Seq<bool>,
    order: Seq<usize>,
)
    requires
        indices_ok(t, idx),
        manifest_paths(t).no_duplicates(),
        peeled(idx, placed, order),
        forall|i: int| 0 <= i < placed.len() ==> placed[i],
    ensures
        is_build_order(t, order),
{
    assert forall|p: int| 0 <= p < t.len() implies occurs_in(order, p) by {
        assert(placed[p]);
    }
    assert forall|i: int, j: int|
        0 <= i < order.len() && 0 <= j < order.len() && depends_on(
            t,
            #[trigger] order[i] as int,
            #[trigger] order[j] as int,
        ) implies j < i by {
        let a = order[i] as int;
        let b = order[j] as int;
        let k = texts(t[a].dependency_paths@).lemma_contains_to_index(t[b].config_path@);
        let c = idx[a]@[k];
        assert(manifest_paths(t)[c as int] == manifest_paths(t)[b]);
        assert(c as int == b);
        assert(earlier(order, i, c));
    }
}

fn peel(t: &Vec<LoadedProject>, idx: &Vec<Vec<usize>>) -> (r: Option<Vec<usize>>)
    requires
        indices_ok(t@, idx@),
        manifest_paths(t@).no_duplicates(),
    ensures
        match r {
            Some(order) => is_build_order(t@, order@),
            None => forall|o: Seq<usize>| !is_build_order(t@, o),
        },
{
    let n: usize = idx.len();
    let mut placed: Vec<bool> = Vec::new();
    let mut i: usize = 0;
    while i < n
        invariant
            i <= n,
            placed@.len() == i,
            unplaced(placed@) == i,
            forall|j: int| 0 <= j < i ==> !placed@[j],
        decreases n - i,
    {
        let ghost before = placed@;
        placed.push(false);
        i = i + 1;
        assert(placed@.drop_last() =~= before);
    }
    let mut order: Vec<usize> = Vec::new();
    let mut remaining: usize = n;
    while remaining > 0
        invariant
            n == idx@.len(),
            indices_ok(t@, idx@),
            peeled(idx@, placed@, order@),
            remaining == unplaced(placed@),
        decreases remaining,
    {
        match find_ready(idx, &placed) {
            None => {
                proof {
                    let u = lemma_unplaced_some(placed@);
                    assert forall|o: Seq<usize>| !is_build_order(t@, o) by {
                        lemma_stuck_has_no_order(t@, idx@, placed@, o, u);
                    }
                }
                return None;
            },
            Some(p) => {
                proof {
                    lemma_unplaced_update(placed@, p as int);
                    lemma_peeled_step(idx@, placed@, order@, p);
                }
                placed.set(p, true);
                order.push(p);
                remaining = remaining - 1;
            },
        }
    }
    proof {
        lemma_unplaced_none(placed@);
        lemma_peeled_is_order(t@, idx@, placed@, order@);
    }
    Some(order)
}

fn repeats_any(t: &Vec<LoadedProject>) -> (r: bool)
    ensures
        r == repeats_dependency(t@),
{
    let mut p: usize = 0;
    while p < t.len()
        invariant
            p <= t@.len(),
            forall|q: int|
                0 <= q < p ==> texts((#[trigger] t@[q]).dependency_paths@).no_duplicates(),
        decreases t@.len() - p,
    {
        if !all_distinct(&t[p].dependency_paths) {
            return true;
        }
        p = p + 1;
    }
    false
}

fn dependency_indices(t: &Vec<LoadedProject>) -> (r: Option<Vec<Vec<usize>>>)
    ensures
        match r {
            Some(idx) => indices_ok(t@, idx@) && !lacks_dependency(t@),
            None => lacks_dependency(t@),
        },
{
    let mut idx: Vec<Vec<usize>> = Vec::new();
    let mut p: usize = 0;
    while p < t.len()
        invariant
            p <= t@.len(),
            idx@.len() == p,
            forall|q: int|
                0 <= q < p ==> (#[trigger] idx@[q])@.len() == t@[q].dependency_paths@.len(),
            forall|q: int, k: int|
                0 <= q < p && 0 <= k < idx@[q]@.len() ==> (#[trigger] idx@[q]@[k]) < t@.len()
                    && t@[idx@[q]@[k] as int].config_path@ == t@[q].dependency_paths@[k]@,
            forall|q: int, k: int|
                0 <= q < p && 0 <= k < t@[q].dependency_paths@.len() ==> loaded(
                    t@,
                    #[trigger] t@[q].dependency_paths@[k]@,
                ),
        decreases t@.len() - p,
    {
        let mut row: Vec<usize> = Vec::new();
        let mut k: usize = 0;
        while k < t[p].dependency_paths.len()
            invariant
                p < t@.len(),
                k <= t@[p as int].dependency_paths@.len(),
                row@.len() == k,
                forall|j: int|
                    0 <= j < k ==> (#[trigger] row@[j]) < t@.len() && t@[row@[j] as int].config_path@
                        == t@[p as int].dependency_paths@[j]@,
                forall|j: int|
                    0 <= j < k ==> loaded(t@, #[trigger] t@[p as int].dependency_paths@[j]@),
            decreases t@[p as int].dependency_paths@.len() - k,
        {
            match project_at(t, t[p].dependency_paths[k].as_str()) {
                Some(i) => {
                    assert(manifest_paths(t@)[i as int] == t@[p as int].dependency_paths@[k as int]@);
                    row.push(i);
                },
                None => {
                    return None;
                },
            }
            k = k + 1;
        }
        idx.push(row);
        p = p + 1;
    }
    Some(idx)
}

fn other_output(t: &Vec<LoadedProject>) -> (r: bool)
    ensures
        r == has_other_output(t@),
{
    let mut d: usize = 1;
    while d < t.len()
        invariant
            1 <= d,
            forall|q: int|
                1 <= q < d && q < t@.len() ==> (#[trigger] t@[q]).config.output_type
                    == OutputType::StaticLibrary,
        decreases t@.len() - d,
    {
        if !matches!(t[d].config.output_type, OutputType::StaticLibrary) {
            return true;
        }
        d = d + 1;
    }
    false
}

fn incompatible(t: &Vec<LoadedProject>) -> (r: bool)
    requires
        t@.len() > 0,
    ensures
        r == has_incompatible(t@),
{
    let mut d: usize = 1;
    while d < t.len()
        invariant
            1 <= d,
            t@.len() > 0,
            forall|q: int|
                1 <= q < d && q < t@.len() ==> (#[trigger] t@[q]).config.cxx_options.compatible(
                    t@[0].config.cxx_options,
                ),
        decreases t@.len() - d,
    {
        if !t[d].config.cxx_options.is_compatible_with(&t[0].config.cxx_options) {
            return true;
        }
        d = d + 1;
    }
    false
}

fn target_lacking(t: &Vec<LoadedProject>) -> (r: bool)
    requires
        t@.len() > 0,
    ensures
        r == lacks_target(t@),
{
    let mut d: usize = 1;
    while d < t.len()
        invariant
            1 <= d,
            t@.len() > 0,
            forall|q: int, x: int|
                1 <= q < d && q < t@.len() && 0 <= x < t@[0].config.supported_targets@.len() ==> (
                #[trigger] t@[q]).config.supported_targets@.contains(
                    #[trigger] t@[0].config.supported_targets@[x],
                ),
        decreases t@.len() - d,
    {
        let mut x: usize = 0;
        while x < t[0].config.supported_targets.len()
            invariant
                1 <= d < t@.len(),
                x <= t@[0].config.supported_targets@.len(),
                forall|y: int|
                    0 <= y < x ==> t@[d as int].config.supported_targets@.contains(
                        #[trigger] t@[0].config.supported_targets@[y],
                    ),
            decreases t@[0].config.supported_targets@.len() - x,
        {
            if !contains_platform(&t[d].config.supported_targets, t[0].config.supported_targets[x]) {
                return true;
            }
            x = x + 1;
        }
        d = d + 1;
    }
    false
}

fn contains_text(v: &Vec<String>, s: &str) -> (r: bool)
    ensures
        r == texts(v@).contains(s@),
{
    let mut i: usize = 0;
    while i < v.len()
        invariant
            i <= v@.len(),
            forall|j: int| 0 <= j < i ==> texts(v@)[j] != s@,
        decreases v@.len() - i,
    {
        if str_eq(v[i].as_str(), s) {
            assert(texts(v@)[i as int] == s@);
            return true;
        }
        i = i + 1;
    }
    false
}

fn add_libraries(out: &mut Vec<String>, libraries: &Vec<String>)
    requires
        texts(old(out)@).no_duplicates(),
    ensures
        texts(final(out)@).no_duplicates(),
        texts(final(out)@).to_set() == texts(old(out)@).to_set().union(texts(libraries@).to_set()),
{
    let ghost start = texts(out@).to_set();
    let mut k: usize = 0;
    assert(texts(out@).to_set() =~= start.union(texts(libraries@).subrange(0, 0).to_set()));
    while k < libraries.len()
        invariant
            k <= libraries@.len(),
            texts(out@).no_duplicates(),
            texts(out@).to_set() == start.union(
                texts(libraries@).subrange(0, k as int).to_set(),
            ),
        decreases libraries@.len() - k,
    {
        let ghost before = texts(out@);
        let ghost seen = texts(libraries@).subrange(0, k as int);
        let fresh = !contains_text(out, libraries[k].as_str());
        if fresh {
            out.push(libraries[k].clone());
        }
        k = k + 1;
        proof {
            broadcast use lemma_seq_contains_after_push;

            let l = libraries@[k - 1]@;
            let upto = texts(libraries@).subrange(0, k as int);
            assert(upto =~= seen.push(l));
            if fresh {
                assert(texts(out@) =~= before.push(l));
            }
            assert(before.to_set() == start.union(seen.to_set()));
            assert forall|a: Seq<char>|
                texts(out@).to_set().contains(a) <==> start.union(upto.to_set()).contains(
                    a,
                ) by {
                assert(before.to_set().contains(a) <==> start.contains(a) || seen.to_set().contains(
                    a,
                ));
                assert(upto.contains(a) <==> seen.contains(a) || a == l);
                assert(texts(out@).contains(a) <==> before.contains(a) || a == l);
            }
            assert(texts(out@).to_set() =~= start.union(upto.to_set()));
        }
    }
    assert(texts(libraries@).subrange(0, k as int) =~= texts(libraries@));
}

fn gather_libraries(t: &Vec<LoadedProject>) -> (r: Vec<String>)
    ensures
        texts(r@).no_duplicates(),
        texts(r@).to_set() == gathered(t@),
{
    let mut out: Vec<String> = Vec::new();
    let mut p: usize = 0;
    assert(texts(out@).to_set() =~= gathered(t@.subrange(0, 0)));
    while p < t.len()
        invariant
            p <= t@.len(),
            texts(out@).no_duplicates(),
            texts(out@).to_set() == gathered(t@.subrange(0, p as int)),
        decreases t@.len() - p,
    {
        add_libraries(&mut out, &t[p].config.link_libraries);
        p = p + 1;
        proof {
            let upto = t@.subrange(0, p as int);
            assert(upto.drop_last() =~= t@.subrange(0, p - 1));
            assert(upto.last() == t@[p - 1]);
        }
    }
    assert(t@.subrange(0, p as int) =~= t@);
    out
}

fn path_list(t: &Vec<LoadedProject>) -> (r: Vec<String>)
    ensures
        texts(r@) == manifest_paths(t@),
{
    let mut out: Vec<String> = Vec::new();
    let mut p: usize = 0;
    while p < t.len()
        invariant
            p <= t@.len(),
            out@.len() == p,
            forall|q: int| 0 <= q < p ==> (#[trigger] out@[q])@ == t@[q].config_path@,
        decreases t@.len() - p,
    {
        out.push(t[p].config_path.clone());
        p = p + 1;
    }
    assert(texts(out@) =~= manifest_paths(t@));
    out
}

fn name_list(t: &Vec<LoadedProject>) -> (r: Vec<String>)
    ensures
        texts(r@) == project_names(t@),
{
    let mut out: Vec<String> = Vec::new();
    let mut p: usize = 0;
    while p < t.len()
        invariant
            p <= t@.len(),
            out@.len() == p,
            forall|q: int| 0 <= q < p ==> (#[trigger] out@[q])@ == t@[q].config.name@,
        decreases t@.len() - p,
    {
        out.push(t[p].config.name.clone());
        p = p + 1;
    }
    assert(texts(out@) =~= project_names(t@));
    out
}

/// Checks the graph of the loaded projects, of which the first is the
/// root, and puts it in build order. A graph is refused where a manifest
/// was loaded twice, a project names a dependency twice, two projects
/// share a name, a dependency was not loaded, the dependencies go in a
/// circle, or a project other than the root is no static library, has
/// language options that do not go with the root's, or lacks a target of
/// the root: the first of these that holds is the error.
pub fn resolve(t: &Vec<LoadedProject>) -> (r: Result<ResolvedGraph, GraphError>)
    ensures
        match r {
            Ok(g) => {
                &&& verdict(t@).is_none()
                &&& is_build_order(t@, g.order@)
                &&& texts(g.link_libraries@).no_duplicates()
                &&& texts(g.link_libraries@).to_set() == gathered(t@)
            },
            Err(e) => verdict(t@) == Some(e),
        },
{
    if t.len() == 0 {
        return Err(GraphError::NoProject);
    }
    if !all_distinct(&path_list(t)) {
        return Err(GraphError::DuplicateProject);
    }
    if repeats_any(t) {
        return Err(GraphError::DuplicateDependency);
    }
    if !all_distinct(&name_list(t)) {
        return Err(GraphError::NameCollision);
    }
    let idx = match dependency_indices(t) {
        Some(idx) => idx,
        None => {
            return Err(GraphError::MissingProject);
        },
    };
    let order = match peel(t, &idx) {
        Some(order) => order,
        None => {
            return Err(GraphError::Cycle);
        },
    };
    if other_output(t) {
        return Err(GraphError::NotStaticLibrary);
    }
    if incompatible(t) {
        return Err(GraphError::IncompatibleOptions);
    }
    if target_lacking(t) {
        return Err(GraphError::MissingTarget);
    }
    let link_libraries = gather_libraries(t);
    Ok(ResolvedGraph { order, link_libraries })
}

} // verus!
