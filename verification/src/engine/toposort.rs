//! Startup ordering of modules from their declared dependencies.
use vstd::prelude::*;
use vstd::set_lib::*;
use crate::engine::string_map::StringMap;
use crate::text::{concat2, owned, strings_view};

verus! {

/// Each module id mapped to the ids of the modules it depends on (its prerequisites).
pub type DependencyGraph = StringMap<Vec<String>>;

/// The dependency graph as a map from node to the list of its prerequisites.
pub open spec fn dependency_view(g: &DependencyGraph) -> Map<Seq<char>, Seq<Seq<char>>> {
    g@.map_values(|v: Vec<String>| v@.map_values(|s: String| s@))
}

/// Every prerequisite named in the graph is itself a node of the graph.
pub open spec fn all_deps_known(m: Map<Seq<char>, Seq<Seq<char>>>) -> bool {
    forall|k: Seq<char>, j: int| #[trigger] m.contains_key(k) && 0 <= j < m[k].len() ==> m.contains_key(#[trigger] m[k][j])
}

/// `d` is named as a prerequisite of some node but is not a node itself.
pub open spec fn unknown_dependency(m: Map<Seq<char>, Seq<Seq<char>>>, d: Seq<char>) -> bool {
    &&& !m.contains_key(d)
    &&& exists|k: Seq<char>, j: int| #[trigger] m.contains_key(k) && 0 <= j < m[k].len() && #[trigger] m[k][j] == d
}

/// `o` lists every node exactly once, and every node comes after all of its prerequisites.
pub open spec fn is_startup_order(m: Map<Seq<char>, Seq<Seq<char>>>, o: Seq<Seq<char>>) -> bool {
    &&& o.no_duplicates()
    &&& forall|i: int| 0 <= i < o.len() ==> m.contains_key(#[trigger] o[i])
    &&& forall|k: Seq<char>| #[trigger] m.contains_key(k) ==> o.contains(k)
    &&& forall|i: int, j: int| 0 <= i < o.len() && 0 <= j < m[o[i]].len()
        ==> #[trigger] placed_before(o, i, m[o[i]][j])
}

/// `d` occurs in `o` at a position before `i`.
pub open spec fn placed_before(o: Seq<Seq<char>>, i: int, d: Seq<char>) -> bool {
    exists|p: int| 0 <= p < i && o[p] == d
}

/// Some startup order exists (the prerequisite relation has no cycle).
pub open spec fn has_startup_order(m: Map<Seq<char>, Seq<Seq<char>>>) -> bool {
    exists|o: Seq<Seq<char>>| is_startup_order(m, o)
}

spec fn deg_formula(d: Seq<usize>, p: Set<usize>) -> int {
    d.len() - d.to_set().intersect(p).len()
}

spec fn dv(g: &DependencyGraph, a: int) -> Seq<Seq<char>> {
    strings_view(g.value_seq()[a]@)
}

proof fn lemma_graph_view(g: &DependencyGraph)
    requires
        g.wf(),
    ensures
        dependency_view(g).dom() == g.key_seq().to_set(),
        dependency_view(g).dom().finite(),
        forall|a: int| 0 <= a < g.key_seq().len() ==> #[trigger] dependency_view(g).contains_key(g.key_seq()[a])
            && dependency_view(g)[g.key_seq()[a]] == dv(g, a),
        forall|k: Seq<char>| #[trigger] dependency_view(g).contains_key(k)
            ==> exists|a: int| 0 <= a < g.key_seq().len() && g.key_seq()[a] == k,
{
    g.lemma_entries();
    assert(dependency_view(g).dom() =~= g@.dom());
    assert forall|a: int| 0 <= a < g.key_seq().len() implies #[trigger] dependency_view(g).contains_key(g.key_seq()[a])
        && dependency_view(g)[g.key_seq()[a]] == dv(g, a) by {
        assert(g@.contains_key(g.key_seq()[a]));
    }
    assert forall|k: Seq<char>| #[trigger] dependency_view(g).contains_key(k)
        implies exists|a: int| 0 <= a < g.key_seq().len() && g.key_seq()[a] == k by {
        assert(g@.contains_key(k));
    }
}

/// A degree of zero means every listed index has been processed and none is listed twice.
proof fn lemma_deg_zero(d: Seq<usize>, p: Set<usize>)
    requires
        p.finite(),
        deg_formula(d, p) == 0,
    ensures
        d.to_set().subset_of(p),
        d.no_duplicates(),
{
    let s = d.to_set();
    d.lemma_cardinality_of_set();
    lemma_len_intersect::<usize>(s, p);
    assert(s.intersect(p).subset_of(s));
    lemma_subset_equality::<usize>(s.intersect(p), s);
    assert(s.len() == d.len());
    d.lemma_no_dup_set_cardinality();
}

/// A positive degree on a repetition-free list means some listed index is unprocessed.
proof fn lemma_deg_positive(d: Seq<usize>, p: Set<usize>) -> (e: usize)
    requires
        p.finite(),
        d.no_duplicates(),
        deg_formula(d, p) > 0,
    ensures
        d.contains(e),
        !p.contains(e),
{
    let s = d.to_set();
    d.unique_seq_to_set();
    if s.subset_of(p) {
        assert(s.intersect(p) =~= s);
        assert(false);
    }
    let e = choose|e: usize| s.contains(e) && !p.contains(e);
    e
}

/// The degree after one more index `x` has been processed.
proof fn lemma_deg_step(d: Seq<usize>, p: Set<usize>, x: usize)
    requires
        p.finite(),
        !p.contains(x),
    ensures
        d.contains(x) ==> deg_formula(d, p.insert(x)) == deg_formula(d, p) - 1,
        !d.contains(x) ==> deg_formula(d, p.insert(x)) == deg_formula(d, p),
{
    let s = d.to_set();
    lemma_len_intersect::<usize>(s, p);
    lemma_set_subset_finite(s, s.intersect(p));
    if d.contains(x) {
        assert(s.contains(x));
        assert(s.intersect(p.insert(x)) =~= s.intersect(p).insert(x));
    } else {
        assert(s.intersect(p.insert(x)) =~= s.intersect(p));
    }
}

spec fn indices_below(n: int) -> Set<usize> {
    Set::new(|x: usize| (x as int) < n)
}

proof fn lemma_indices_below(n: int)
    requires
        0 <= n <= usize::MAX,
    ensures
        indices_below(n).finite(),
        indices_below(n).len() == n,
    decreases n,
{
    if n == 0 {
        assert(indices_below(n) =~= Set::<usize>::empty());
    } else {
        lemma_indices_below(n - 1);
        assert(indices_below(n) =~= indices_below(n - 1).insert((n - 1) as usize));
    }
}

/// A repetition-free list of indices below `n` that misses `i` is shorter than `n`;
/// one that misses none is exactly `n` long.
proof fn lemma_index_list_len(q: Seq<usize>, n: int)
    requires
        0 <= n <= usize::MAX,
        q.no_duplicates(),
        forall|t: int| 0 <= t < q.len() ==> q[t] < n,
    ensures
        q.len() <= n,
        forall|i: usize| (i as int) < n && !q.contains(i) ==> q.len() < n,
        q.len() == n ==> forall|i: usize| (i as int) < n ==> q.contains(i),
        q.len() < n ==> exists|i: usize| (i as int) < n && !q.contains(i),
{
    lemma_indices_below(n);
    q.unique_seq_to_set();
    assert(q.to_set().subset_of(indices_below(n)));
    lemma_len_subset(q.to_set(), indices_below(n));
    assert forall|i: usize| (i as int) < n && !q.contains(i) implies q.len() < n by {
        q.to_set().lemma_subset_not_in_lt(indices_below(n), i);
    }
    if q.len() < n && forall|i: usize| (i as int) < n ==> q.contains(i) {
        assert(indices_below(n).subset_of(q.to_set()));
        lemma_len_subset(indices_below(n), q.to_set());
    }
}

/// Position of key `k` in `ks` (meaningful when present).
spec fn key_index(ks: Seq<Seq<char>>, k: Seq<char>) -> int {
    choose|a: int| 0 <= a < ks.len() && ks[a] == k
}

/// `idx` lists, once each, the positions in `ks` of the names in `ds`.
spec fn resolves(ks: Seq<Seq<char>>, idx: Seq<usize>, ds: Seq<Seq<char>>) -> bool {
    &&& idx.no_duplicates()
    &&& forall|t: int| 0 <= t < idx.len() ==> (#[trigger] idx[t]) < ks.len()
    &&& forall|j: int| 0 <= j < ds.len() ==> #[trigger] listed_at(ks, idx, ds[j])
    &&& forall|t: int| 0 <= t < idx.len() ==> #[trigger] named_in(ks, idx[t], ds)
}

/// Some position listed in `idx` holds the name `d`.
spec fn listed_at(ks: Seq<Seq<char>>, idx: Seq<usize>, d: Seq<char>) -> bool {
    exists|t: int| 0 <= t < idx.len() && ks[idx[t] as int] == d
}

/// The name at position `i` is one of `ds`.
spec fn named_in(ks: Seq<Seq<char>>, i: usize, ds: Seq<Seq<char>>) -> bool {
    exists|j: int| 0 <= j < ds.len() && ks[i as int] == ds[j]
}

/// Resolving one more name to a new position extends the resolution.
proof fn lemma_resolve_push(ks: Seq<Seq<char>>, idx: Seq<usize>, ds: Seq<Seq<char>>, p: usize, d: Seq<char>)
    requires
        resolves(ks, idx, ds),
        (p as int) < ks.len(),
        ks[p as int] == d,
        !idx.contains(p),
    ensures
        resolves(ks, idx.push(p), ds.push(d)),
{
    let idx1 = idx.push(p);
    let ds1 = ds.push(d);
    assert forall|jj: int| 0 <= jj < ds1.len() implies #[trigger] listed_at(ks, idx1, ds1[jj]) by {
        if jj < ds.len() {
            assert(ds1[jj] == ds[jj]);
            assert(listed_at(ks, idx, ds[jj]));
            let t = choose|t: int| 0 <= t < idx.len() && ks[idx[t] as int] == ds[jj];
            assert(idx1[t] == idx[t]);
        } else {
            assert(idx1[idx.len() as int] == p);
        }
    }
    assert forall|t: int| 0 <= t < idx1.len() implies #[trigger] named_in(ks, idx1[t], ds1) by {
        if t < idx.len() {
            assert(idx1[t] == idx[t]);
            assert(named_in(ks, idx[t], ds));
            let jj = choose|jj: int| 0 <= jj < ds.len() && ks[idx[t] as int] == ds[jj];
            assert(ds1[jj] == ds[jj]);
        } else {
            assert(ks[idx1[t] as int] == ds1[ds.len() as int]);
        }
    }
    assert forall|t: int| 0 <= t < idx1.len() implies (#[trigger] idx1[t]) < ks.len() by {
        if t < idx.len() { assert(idx1[t] == idx[t]); }
    }
    assert forall|t1: int, t2: int| 0 <= t1 < idx1.len() && 0 <= t2 < idx1.len() && t1 != t2
        implies idx1[t1] != idx1[t2] by {
        if t1 < idx.len() && t2 < idx.len() {
            assert(idx1[t1] == idx[t1]);
            assert(idx1[t2] == idx[t2]);
        } else if t1 < idx.len() {
            assert(idx1[t1] == idx[t1]);
            assert(idx.contains(idx[t1]));
        } else {
            assert(idx1[t2] == idx[t2]);
            assert(idx.contains(idx[t2]));
        }
    }
}

/// A name whose position is already listed needs no new entry.
proof fn lemma_resolve_known(ks: Seq<Seq<char>>, idx: Seq<usize>, ds: Seq<Seq<char>>, p: usize, d: Seq<char>)
    requires
        resolves(ks, idx, ds),
        idx.contains(p),
        ks[p as int] == d,
    ensures
        resolves(ks, idx, ds.push(d)),
{
    let ds1 = ds.push(d);
    let t0 = choose|t0: int| 0 <= t0 < idx.len() && idx[t0] == p;
    assert forall|jj: int| 0 <= jj < ds1.len() implies #[trigger] listed_at(ks, idx, ds1[jj]) by {
        if jj < ds.len() {
            assert(ds1[jj] == ds[jj]);
            assert(listed_at(ks, idx, ds[jj]));
        } else {
            assert(ks[idx[t0] as int] == ds1[jj]);
        }
    }
    assert forall|t: int| 0 <= t < idx.len() implies #[trigger] named_in(ks, idx[t], ds1) by {
        assert(named_in(ks, idx[t], ds));
        let jj = choose|jj: int| 0 <= jj < ds.len() && ks[idx[t] as int] == ds[jj];
        assert(ds1[jj] == ds[jj]);
    }
}

/// The resolved prerequisite indices `didx` describe the graph `g`: for each node, the
/// distinct positions of its prerequisites.
spec fn resolved(g: &DependencyGraph, didx: Seq<Seq<usize>>) -> bool {
    &&& didx.len() == g.key_seq().len()
    &&& forall|a: int| 0 <= a < didx.len() ==> resolves(g.key_seq(), #[trigger] didx[a], dv(g, a))
}

proof fn lemma_prefix_processed(
    g: &DependencyGraph,
    didx: Seq<Seq<usize>>,
    p: Set<usize>,
    o: Seq<Seq<char>>,
    t: int,
)
    requires
        g.wf(),
        resolved(g, didx),
        p.finite(),
        forall|a: int| 0 <= a < didx.len() && !p.contains(a as usize) ==> deg_formula(#[trigger] didx[a], p) > 0,
        is_startup_order(dependency_view(g), o),
        0 <= t < o.len(),
    ensures
        0 <= key_index(g.key_seq(), o[t]) < g.key_seq().len(),
        g.key_seq()[key_index(g.key_seq(), o[t])] == o[t],
        p.contains(key_index(g.key_seq(), o[t]) as usize),
    decreases t,
{
    let ks = g.key_seq();
    let m = dependency_view(g);
    lemma_graph_view(g);
    g.lemma_entries();
    assert(m.contains_key(o[t]));
    let a = key_index(ks, o[t]);
    assert(0 <= a < ks.len() && ks[a] == o[t]);
    if !p.contains(a as usize) {
        assert(m[ks[a]] == dv(g, a));
        assert(m.contains_key(ks[a]));
        assert(resolves(ks, didx[a], dv(g, a)));
        assert(deg_formula(didx[a], p) > 0);
        let e = lemma_deg_positive(didx[a], p);
        let t0 = choose|t0: int| 0 <= t0 < didx[a].len() && didx[a][t0] == e;
        assert(named_in(ks, didx[a][t0], dv(g, a)));
        let j = choose|j: int| 0 <= j < dv(g, a).len() && ks[didx[a][t0] as int] == dv(g, a)[j];
        assert(ks[e as int] == dv(g, a)[j]);
        assert(m[o[t]][j] == dv(g, a)[j]);
        assert(placed_before(o, t, m[o[t]][j]));
        let q = choose|q: int| 0 <= q < t && o[q] == m[o[t]][j];
        lemma_prefix_processed(g, didx, p, o, q);
        let b = key_index(ks, o[q]);
        assert(ks[b] == ks[e as int]);
        assert(b == e);
    }
}

/// When some node was never processed and every unprocessed node still waits on a
/// prerequisite, no startup order exists.
proof fn lemma_stuck_no_order(g: &DependencyGraph, didx: Seq<Seq<usize>>, p: Set<usize>, i: usize)
    requires
        g.wf(),
        resolved(g, didx),
        p.finite(),
        forall|a: int| 0 <= a < didx.len() && !p.contains(a as usize) ==> deg_formula(#[trigger] didx[a], p) > 0,
        (i as int) < didx.len(),
        !p.contains(i),
    ensures
        !has_startup_order(dependency_view(g)),
{
    let ks = g.key_seq();
    let m = dependency_view(g);
    if has_startup_order(m) {
        let o = choose|o: Seq<Seq<char>>| is_startup_order(m, o);
        lemma_graph_view(g);
        g.lemma_entries();
        assert(m.contains_key(ks[i as int]));
        assert(o.contains(ks[i as int]));
        let t = choose|t: int| 0 <= t < o.len() && o[t] == ks[i as int];
        lemma_prefix_processed(g, didx, p, o, t);
        let b = key_index(ks, o[t]);
        assert(ks[b] == ks[i as int]);
    }
}

proof fn lemma_known(g: &DependencyGraph, didx: Seq<Seq<usize>>)
    requires
        g.wf(),
        resolved(g, didx),
    ensures
        all_deps_known(dependency_view(g)),
{
    let ks = g.key_seq();
    let m = dependency_view(g);
    lemma_graph_view(g);
    assert forall|k: Seq<char>, j: int| #[trigger] m.contains_key(k) && 0 <= j < m[k].len()
        implies m.contains_key(#[trigger] m[k][j]) by {
        let a = choose|a: int| 0 <= a < ks.len() && ks[a] == k;
        assert(m[ks[a]] == dv(g, a));
        assert(resolves(ks, didx[a], dv(g, a)));
        assert(listed_at(ks, didx[a], dv(g, a)[j]));
        let t = choose|t: int| 0 <= t < didx[a].len() && ks[didx[a][t] as int] == dv(g, a)[j];
        assert(didx[a][t] < ks.len());
        assert(m.contains_key(ks[didx[a][t] as int]));
    }
}

proof fn lemma_complete_order(g: &DependencyGraph, didx: Seq<Seq<usize>>, q: Seq<usize>, o: Seq<Seq<char>>)
    requires
        g.wf(),
        resolved(g, didx),
        q.no_duplicates(),
        q.len() == didx.len(),
        q.len() <= usize::MAX,
        forall|t: int| 0 <= t < q.len() ==> q[t] < q.len(),
        forall|t: int| 0 <= t < q.len() ==> (#[trigger] didx[q[t] as int]).to_set().subset_of(q.take(t).to_set()),
        forall|a: int| 0 <= a < didx.len() ==> deg_formula(#[trigger] didx[a], q.to_set()) == 0,
        o.len() == q.len(),
        forall|t: int| 0 <= t < o.len() ==> #[trigger] o[t] == g.key_seq()[q[t] as int],
    ensures
        is_startup_order(dependency_view(g), o),
{
    let ks = g.key_seq();
    let m = dependency_view(g);
    let n = q.len();
    lemma_graph_view(g);
    g.lemma_entries();
    lemma_index_list_len(q, n as int);
    assert forall|t1: int, t2: int| 0 <= t1 < o.len() && 0 <= t2 < o.len() && t1 != t2 implies o[t1] != o[t2] by {
        assert(q[t1] != q[t2]);
    }
    assert forall|i: int| 0 <= i < o.len() implies m.contains_key(#[trigger] o[i]) by {
        assert(m.contains_key(ks[q[i] as int]));
    }
    assert forall|k: Seq<char>| #[trigger] m.contains_key(k) implies o.contains(k) by {
        let a = choose|a: int| 0 <= a < ks.len() && ks[a] == k;
        assert(q.contains(a as usize));
        let t = choose|t: int| 0 <= t < q.len() && q[t] == a as usize;
        assert(ks[q[t] as int] == k);
        assert(o[t] == k);
    }
    assert forall|i: int, j: int| 0 <= i < o.len() && 0 <= j < m[o[i]].len()
        implies #[trigger] placed_before(o, i, m[o[i]][j]) by {
        let a = q[i] as int;
        assert(m[ks[a]] == dv(g, a));
        assert(resolves(ks, didx[a], dv(g, a)));
        assert(listed_at(ks, didx[a], dv(g, a)[j]));
        let t = choose|t: int| 0 <= t < didx[a].len() && ks[didx[a][t] as int] == dv(g, a)[j];
        let e = didx[a][t];
        assert(ks[e as int] == dv(g, a)[j]);
        assert(didx[a].to_set().contains(e));
        assert(q.take(i).to_set().contains(e));
        let p = choose|p: int| 0 <= p < q.take(i).len() && q.take(i)[p] == e;
        assert(q[p] == e);
        assert(o[p] == ks[q[p] as int]);
        assert(o[i] == ks[a]);
        assert(o[p] == m[o[i]][j]);
    }
    assert(o.no_duplicates());
    assert(forall|i: int| 0 <= i < o.len() ==> m.contains_key(#[trigger] o[i]));
    assert(forall|k: Seq<char>| #[trigger] m.contains_key(k) ==> o.contains(k));
    assert(is_startup_order(m, o));
}

fn contains_index(v: &Vec<usize>, x: usize) -> (r: bool)
    ensures
        r == v@.contains(x),
{
    let n = v.len();
    for i in 0..n
        invariant
            n == v@.len(),
            forall|j: int| 0 <= j < i ==> v@[j] != x,
    {
        if v[i] == x {
            assert(v@[i as int] == x);
            return true;
        }
    }
    false
}

/// Orders the nodes of `deps` so that every node comes after all of its prerequisites
/// (Kahn's algorithm).
///
/// Fails with "Dependency not found: <d>" when a prerequisite `d` is not a node, and
/// otherwise with "Circular dependency detected" when no such order exists. A
/// prerequisite listed twice counts once.
pub fn topological_sort(deps: &DependencyGraph) -> (result: Result<Vec<String>, String>)
    requires
        deps.wf(),
    ensures
        ({
            let m = dependency_view(deps);
            match result {
                Ok(order) => all_deps_known(m) && is_startup_order(m, strings_view(order@)),
                Err(msg) => (exists|d: Seq<char>| unknown_dependency(m, d) && msg@ == "Dependency not found: "@ + d)
                    || (all_deps_known(m) && msg@ == "Circular dependency detected"@ && !has_startup_order(m)),
            }
        }),
{
    let n = deps.len();
    let ghost ks = deps.key_seq();
    let ghost m = dependency_view(deps);

    // Resolve every prerequisite to the position of its node; each distinct one adds to
    // the in-degree.
    let mut dep_idx: Vec<Vec<usize>> = Vec::new();
    let mut in_degree: Vec<usize> = Vec::new();
    for i in 0..n
        invariant
            deps.wf(),
            n == ks.len(),
            ks == deps.key_seq(),
            m == dependency_view(deps),
            dep_idx.len() == i,
            in_degree.len() == i,
            forall|a: int| 0 <= a < i ==> in_degree@[a] == (#[trigger] dep_idx@[a])@.len(),
            forall|a: int| 0 <= a < i ==> resolves(ks, (#[trigger] dep_idx@[a])@, dv(deps, a)),
    {
        let dlist = deps.value_at(i);
        let dn = dlist.len();
        let mut idxs: Vec<usize> = Vec::new();
        for j in 0..dn
            invariant
                deps.wf(),
                n == ks.len(),
                ks == deps.key_seq(),
                m == dependency_view(deps),
                i < n,
                *dlist == deps.value_seq()[i as int],
                dn == dlist@.len(),
                dn == dv(deps, i as int).len(),
                idxs@.len() <= j,
                resolves(ks, idxs@, dv(deps, i as int).take(j as int)),
        {
            proof {
                assert(dv(deps, i as int)[j as int] == dlist@[j as int]@);
            }
            let ghost before = idxs@;
            let ghost ds = dv(deps, i as int).take(j as int);
            let ghost d = dv(deps, i as int)[j as int];
            assert(dv(deps, i as int).take(j + 1) =~= ds.push(d));
            match deps.find(dlist[j].as_str()) {
                Some(p) => {
                    if !contains_index(&idxs, p) {
                        idxs.push(p);
                        proof { lemma_resolve_push(ks, before, ds, p, d); }
                    } else {
                        proof { lemma_resolve_known(ks, before, ds, p, d); }
                    }
                },
                None => {
                    proof {
                        lemma_graph_view(deps);
                        deps.lemma_entries();
                        let d = dlist@[j as int]@;
                        assert(dv(deps, i as int)[j as int] == d);
                        assert(m.contains_key(ks[i as int]));
                        assert(m[ks[i as int]][j as int] == d);
                        assert(!m.contains_key(d));
                        assert(unknown_dependency(m, d));
                    }
                    return Err(concat2("Dependency not found: ", dlist[j].as_str()));
                },
            }
        }
        proof {
            assert(dv(deps, i as int).take(dn as int) =~= dv(deps, i as int));
        }
        in_degree.push(idxs.len());
        let ghost iv = idxs@;
        let ghost old_dep = dep_idx@;
        dep_idx.push(idxs);
        assert(dep_idx@[i as int]@ == iv);
        assert forall|a: int| 0 <= a < i + 1 implies resolves(ks, (#[trigger] dep_idx@[a])@, dv(deps, a)) by {
            if a < i { assert(dep_idx@[a] == old_dep[a]); }
        }
        assert forall|a: int| 0 <= a < i + 1 implies in_degree@[a] == (#[trigger] dep_idx@[a])@.len() by {
            if a < i { assert(dep_idx@[a] == old_dep[a]); }
        }
    }
    let ghost didx = dep_idx@.map_values(|v: Vec<usize>| v@);
    assert(resolved(deps, didx));

    // Seed the queue with the nodes that have no prerequisites.
    let mut queue: Vec<usize> = Vec::new();
    for i in 0..n
        invariant
            n == ks.len(),
            dep_idx.len() == n,
            in_degree.len() == n,
            didx == dep_idx@.map_values(|v: Vec<usize>| v@),
            forall|a: int| 0 <= a < n ==> in_degree@[a] == didx[a].len(),
            queue@.no_duplicates(),
            forall|t: int| 0 <= t < queue.len() ==> queue@[t] < i,
            forall|t: int| 0 <= t < queue.len() ==> in_degree@[queue@[t] as int] == 0,
            forall|a: int| 0 <= a < i ==> in_degree@[a] == 0 ==> queue@.contains(a as usize),
    {
        if in_degree[i] == 0 {
            let ghost qb = queue@;
            queue.push(i);
            proof {
                assert(queue@[queue.len() - 1] == i);
                assert forall|a: int| 0 <= a < i && #[trigger] qb.contains(a as usize) implies queue@.contains(a as usize) by {
                    let t = choose|t: int| 0 <= t < qb.len() && qb[t] == a as usize;
                    assert(queue@[t] == a as usize);
                }
            }
        }
    }
    assert forall|a: int| 0 <= a < n implies in_degree@[a] == deg_formula(#[trigger] didx[a], queue@.take(0).to_set()) by {
        assert(didx[a].to_set().intersect(queue@.take(0).to_set()) =~= Set::empty());
    }
    assert forall|t: int| 0 <= t < queue.len() implies (#[trigger] didx[queue@[t] as int]).to_set().subset_of(queue@.take(t).to_set()) by {
        assert(didx[queue@[t] as int].len() == 0);
        assert(didx[queue@[t] as int].to_set() =~= Set::empty());
    }
    proof { lemma_index_list_len(queue@, n as int); }

    // Kahn's algorithm: take ready nodes in turn; a node becomes ready once all of its
    // prerequisites have been taken.
    let mut order: Vec<String> = Vec::new();
    let mut qh: usize = 0;
    while qh < queue.len()
        invariant
            deps.wf(),
            n == ks.len(),
            ks == deps.key_seq(),
            m == dependency_view(deps),
            resolved(deps, didx),
            dep_idx.len() == n,
            in_degree.len() == n,
            didx == dep_idx@.map_values(|v: Vec<usize>| v@),
            queue@.no_duplicates(),
            forall|t: int| 0 <= t < queue.len() ==> queue@[t] < n,
            qh <= queue.len() <= n,
            order.len() == qh,
            forall|t: int| 0 <= t < qh ==> #[trigger] order@[t]@ == ks[queue@[t] as int],
            forall|a: int| 0 <= a < n ==> in_degree@[a] == deg_formula(#[trigger] didx[a], queue@.take(qh as int).to_set()),
            forall|t: int| 0 <= t < queue.len() ==> in_degree@[queue@[t] as int] == 0,
            forall|a: int| 0 <= a < n ==> in_degree@[a] == 0 ==> queue@.contains(a as usize),
            forall|t: int| 0 <= t < queue.len() ==> (#[trigger] didx[queue@[t] as int]).to_set().subset_of(queue@.take(t).to_set()),
        decreases n - qh,
    {
        let x = queue[qh];
        let ghost h0: int = qh as int;
        let ghost p_old = queue@.take(h0).to_set();
        order.push(deps.key_at(x).clone());
        qh = qh + 1;
        let ghost p_new = queue@.take(qh as int).to_set();
        let ghost q0 = queue@;
        proof {
            assert(queue@.take(qh as int) == queue@.take(h0).push(x));
            queue@.take(h0).lemma_push_to_set_commute(x);
            assert(p_new == p_old.insert(x));
            assert(!p_old.contains(x)) by {
                if p_old.contains(x) {
                    let t = choose|t: int| 0 <= t < h0 && queue@.take(h0)[t] == x;
                    assert(queue@[t] == queue@[h0]);
                }
            }
        }
        for other in 0..n
            invariant
                n == ks.len(),
                dep_idx.len() == n,
                in_degree.len() == n,
                didx == dep_idx@.map_values(|v: Vec<usize>| v@),
                resolved(deps, didx),
                ks == deps.key_seq(),
                deps.wf(),
                0 < qh <= q0.len() <= queue.len() <= n,
                queue@.take(q0.len() as int) == q0,
                h0 + 1 == qh,
                x == q0[h0],
                p_old == q0.take(h0).to_set(),
                p_new == q0.take(qh as int).to_set(),
                p_new == p_old.insert(x),
                !p_old.contains(x),
                queue@.no_duplicates(),
                forall|t: int| 0 <= t < queue.len() ==> queue@[t] < n,
                forall|a: int| 0 <= a < other ==> in_degree@[a] == deg_formula(#[trigger] didx[a], p_new),
                forall|a: int| other <= a < n ==> in_degree@[a] == deg_formula(#[trigger] didx[a], p_old),
                forall|t: int| 0 <= t < queue.len() ==> in_degree@[queue@[t] as int] == 0,
                forall|a: int| 0 <= a < n ==> in_degree@[a] == 0 ==> queue@.contains(a as usize),
                forall|t: int| 0 <= t < queue.len() ==> (#[trigger] didx[queue@[t] as int]).to_set().subset_of(queue@.take(t).to_set()),
        {
            let ghost qb = queue@;
            proof {
                lemma_deg_step(didx[other as int], p_old, x);
            }
            if contains_index(&dep_idx[other], x) {
                proof {
                    assert(didx[other as int].contains(x));
                    if queue@.contains(other) {
                        let t = choose|t: int| 0 <= t < queue.len() && queue@[t] == other;
                        assert(in_degree@[other as int] == 0);
                        lemma_deg_zero(didx[other as int], p_old);
                        assert(didx[other as int].to_set().contains(x));
                        assert(false);
                    }
                }
                let d = in_degree[other];
                in_degree.set(other, d - 1);
                if d - 1 == 0 {
                    proof {
                        lemma_index_list_len(queue@, n as int);
                        lemma_deg_zero(didx[other as int], p_new);
                    }
                    queue.push(other);
                    proof {
                        assert(queue@[queue.len() - 1] == other);
                        assert forall|a: int| 0 <= a < n && #[trigger] qb.contains(a as usize) implies queue@.contains(a as usize) by {
                            let t = choose|t: int| 0 <= t < qb.len() && qb[t] == a as usize;
                            assert(queue@[t] == a as usize);
                        }
                        assert forall|t: int| 0 <= t < qb.len() implies #[trigger] queue@.take(t) == qb.take(t) by {
                            assert(queue@.take(t) =~= qb.take(t));
                        }
                        assert(queue@.take(q0.len() as int) =~= q0);
                        assert(q0.take(qh as int) =~= qb.take(qh as int));
                        assert(queue@.take(qb.len() as int) =~= qb);
                        assert forall|e: usize| p_new.contains(e) implies queue@.take(qb.len() as int).to_set().contains(e) by {
                            let t = choose|t: int| 0 <= t < qh && q0.take(qh as int)[t] == e;
                            assert(qb[t] == e);
                        }
                    }
                }
            } else {
                proof {
                    assert(!didx[other as int].contains(x));
                }
            }
        }
        proof {
            assert(queue@.take(qh as int) =~= q0.take(qh as int));
        }
    }

    if order.len() != n {
        proof {
            lemma_known(deps, didx);
            assert(queue@.take(qh as int) =~= queue@);
            lemma_index_list_len(queue@, n as int);
            let i = choose|i: usize| (i as int) < n && !queue@.contains(i);
            assert(!queue@.to_set().contains(i));
            assert forall|a: int| 0 <= a < didx.len() && !queue@.to_set().contains(a as usize)
                implies deg_formula(#[trigger] didx[a], queue@.to_set()) > 0 by {
                assert(!queue@.contains(a as usize));
            }
            lemma_stuck_no_order(deps, didx, queue@.to_set(), i);
        }
        return Err(owned("Circular dependency detected"));
    }
    proof {
        lemma_known(deps, didx);
        assert(queue@.take(qh as int) =~= queue@);
        lemma_index_list_len(queue@, n as int);
        assert forall|a: int| 0 <= a < didx.len() implies deg_formula(#[trigger] didx[a], queue@.to_set()) == 0 by {
            assert(queue@.contains(a as usize));
            let t = choose|t: int| 0 <= t < queue.len() && queue@[t] == a as usize;
            assert(in_degree@[queue@[t] as int] == 0);
        }
        lemma_complete_order(deps, didx, queue@, strings_view(order@));
    }
    Ok(order)
}

} // verus!
