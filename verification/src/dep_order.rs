use vstd::prelude::*;
use crate::handler::{CompileError, ErrorEmitted, Handler};
use crate::language::Ident;
use crate::parse_tree::ParseSubmodule;

verus! {

broadcast use vstd::std_specs::vec::group_vec_axioms;

/// First submodule with the given name, scanning from `i`.
pub open spec fn spec_find_submodule(subs: Seq<ParseSubmodule>, name: Seq<char>, i: int) -> Option<
    int,
>
    decreases subs.len() - i,
{
    if i < 0 || i >= subs.len() {
        None
    } else if subs[i].name.text@ == name {
        Some(i)
    } else {
        spec_find_submodule(subs, name, i + 1)
    }
}

fn find_submodule(subs: &Vec<ParseSubmodule>, name: &Ident, i: usize) -> (r: Option<usize>)
    requires
        i <= subs@.len(),
    ensures
        match r {
            Some(j) => spec_find_submodule(subs@, name.text@, i as int) == Some(j as int) && j
                < subs@.len(),
            None => spec_find_submodule(subs@, name.text@, i as int) is None,
        },
    decreases subs@.len() - i,
{
    if i >= subs.len() {
        None
    } else if subs[i].name.text == name.text {
        Some(i)
    } else {
        find_submodule(subs, name, i + 1)
    }
}

/// Every dependency of a submodule that names another submodule is
/// already marked done.
pub open spec fn spec_deps_done(
    subs: Seq<ParseSubmodule>,
    deps: Seq<Ident>,
    done: Seq<bool>,
    i: int,
) -> bool
    decreases deps.len() - i,
{
    if i < 0 || i >= deps.len() {
        true
    } else {
        &&& match spec_find_submodule(subs, deps[i].text@, 0) {
            Some(j) => 0 <= j < done.len() && done[j],
            None => true,
        }
        &&& spec_deps_done(subs, deps, done, i + 1)
    }
}

fn deps_done(subs: &Vec<ParseSubmodule>, deps: &Vec<Ident>, done: &Vec<bool>, i: usize) -> (r:
    bool)
    requires
        i <= deps@.len(),
    ensures
        r == spec_deps_done(subs@, deps@, done@, i as int),
    decreases deps@.len() - i,
{
    if i >= deps.len() {
        true
    } else {
        let head_ok = match find_submodule(subs, &deps[i], 0) {
            Some(j) => {
                if j < done.len() {
                    done[j]
                } else {
                    false
                }
            },
            None => true,
        };
        if !head_ok {
            false
        } else {
            deps_done(subs, deps, done, i + 1)
        }
    }
}

proof fn lemma_deps_done_all(subs: Seq<ParseSubmodule>, deps: Seq<Ident>, done: Seq<bool>, i: int)
    requires
        spec_deps_done(subs, deps, done, i),
        0 <= i,
    ensures
        forall|di: int|
            i <= di < deps.len() ==> match spec_find_submodule(
                subs,
                (#[trigger] deps[di]).text@,
                0,
            ) {
                Some(j) => 0 <= j < done.len() && done[j],
                None => true,
            },
    decreases deps.len() - i,
{
    if i < deps.len() {
        lemma_deps_done_all(subs, deps, done, i + 1);
    }
}

/// A nonempty set of modules each of which waits on a member of the
/// set: the witness a dependency cycle leaves behind. `done` marks the
/// modules outside the set.
pub open spec fn spec_graph_stuck(subs: Seq<ParseSubmodule>) -> bool {
    exists|done: Seq<bool>|
        {
            &&& #[trigger] done.len() == subs.len()
            &&& exists|k: int| 0 <= k < done.len() && !(#[trigger] done[k])
            &&& forall|k: int|
                0 <= k < done.len() && !done[k] ==> !spec_deps_done(
                    subs,
                    (#[trigger] subs[k]).dependencies@,
                    done,
                    0,
                )
        }
}

proof fn lemma_find_submodule_some(subs: Seq<ParseSubmodule>, name: Seq<char>, i: int, j: int)
    requires
        0 <= i,
        spec_find_submodule(subs, name, i) == Some(j),
    ensures
        i <= j < subs.len(),
    decreases subs.len() - i,
{
    if i < subs.len() && subs[i].name.text@ != name {
        lemma_find_submodule_some(subs, name, i + 1, j);
    }
}

/// A failed readiness check names a dependency that is not done.
proof fn lemma_not_deps_done_witness(
    subs: Seq<ParseSubmodule>,
    deps: Seq<Ident>,
    done: Seq<bool>,
    i: int,
)
    requires
        0 <= i,
        !spec_deps_done(subs, deps, done, i),
    ensures
        exists|di: int|
            i <= di < deps.len() && (spec_find_submodule(subs, (#[trigger] deps[di]).text@, 0)
                matches Some(j) && !(0 <= j < done.len() && done[j])),
    decreases deps.len() - i,
{
    if i < deps.len() {
        let head_ok = match spec_find_submodule(subs, deps[i].text@, 0) {
            Some(j) => 0 <= j < done.len() && done[j],
            None => true,
        };
        if head_ok {
            lemma_not_deps_done_witness(subs, deps, done, i + 1);
        }
    }
}

/// Along a dependency-respecting complete order, no position can lie in
/// a stuck set: its dependencies sit earlier and are, inductively, out.
proof fn lemma_order_position_done(
    subs: Seq<ParseSubmodule>,
    ord: Seq<usize>,
    done_w: Seq<bool>,
    p: int,
)
    requires
        0 <= p < ord.len(),
        forall|q: int| 0 <= q < ord.len() ==> #[trigger] ord[q] < subs.len(),
        forall|q: int, di: int|
            0 <= q < ord.len() && 0 <= di < subs[ord[q] as int].dependencies@.len()
                ==> match spec_find_submodule(
                subs,
                (#[trigger] subs[ord[q] as int].dependencies@[di]).text@,
                0,
            ) {
                Some(j) => exists|q2: int| 0 <= q2 < q && #[trigger] ord[q2] == j,
                None => true,
            },
        done_w.len() == subs.len(),
        forall|k: int|
            0 <= k < done_w.len() && !done_w[k] ==> !spec_deps_done(
                subs,
                (#[trigger] subs[k]).dependencies@,
                done_w,
                0,
            ),
    ensures
        done_w[ord[p] as int],
    decreases p,
{
    let k = ord[p] as int;
    if !done_w[k] {
        assert(!spec_deps_done(subs, subs[k].dependencies@, done_w, 0));
        lemma_not_deps_done_witness(subs, subs[k].dependencies@, done_w, 0);
        let di = choose|di: int|
            0 <= di < subs[k].dependencies@.len() && (spec_find_submodule(
                subs,
                (#[trigger] subs[k].dependencies@[di]).text@,
                0,
            ) matches Some(j) && !(0 <= j < done_w.len() && done_w[j]));
        match spec_find_submodule(subs, subs[k].dependencies@[di].text@, 0) {
            Some(j) => {
                lemma_find_submodule_some(subs, subs[k].dependencies@[di].text@, 0, j);
                let q2 = choose|q2: int| 0 <= q2 < p && #[trigger] ord[q2] == j;
                lemma_order_position_done(subs, ord, done_w, q2);
            },
            None => {},
        }
    }
}

/// A complete, duplicate-free, dependency-respecting order rules a
/// stuck set out; conversely a stuck set rules such an order out.
pub proof fn lemma_valid_order_excludes_stuck(subs: Seq<ParseSubmodule>, ord: Seq<usize>)
    requires
        subs.len() <= usize::MAX,
        ord.len() == subs.len(),
        forall|q: int| 0 <= q < ord.len() ==> #[trigger] ord[q] < subs.len(),
        forall|k: usize| (k as int) < subs.len() ==> #[trigger] ord.contains(k),
        forall|q: int, di: int|
            0 <= q < ord.len() && 0 <= di < subs[ord[q] as int].dependencies@.len()
                ==> match spec_find_submodule(
                subs,
                (#[trigger] subs[ord[q] as int].dependencies@[di]).text@,
                0,
            ) {
                Some(j) => exists|q2: int| 0 <= q2 < q && #[trigger] ord[q2] == j,
                None => true,
            },
    ensures
        !spec_graph_stuck(subs),
{
    if spec_graph_stuck(subs) {
        let done_w = choose|done: Seq<bool>|
            {
                &&& #[trigger] done.len() == subs.len()
                &&& exists|k: int| 0 <= k < done.len() && !(#[trigger] done[k])
                &&& forall|k: int|
                    0 <= k < done.len() && !done[k] ==> !spec_deps_done(
                        subs,
                        (#[trigger] subs[k]).dependencies@,
                        done,
                        0,
                    )
            };
        let k0 = choose|k: int| 0 <= k < done_w.len() && !(#[trigger] done_w[k]);
        assert(ord.contains(k0 as usize));
        let q0 = choose|q: int| 0 <= q < ord.len() && ord[q] == k0 as usize;
        lemma_order_position_done(subs, ord, done_w, q0);
        assert(false);
    }
}

proof fn lemma_count_done_bound(s: Seq<bool>, i: int)
    requires
        0 <= i <= s.len(),
    ensures
        count_done(s, i) <= s.len() - i,
    decreases s.len() - i,
{
    if i < s.len() {
        lemma_count_done_bound(s, i + 1);
    }
}

proof fn lemma_count_done_full(s: Seq<bool>, i: int)
    requires
        0 <= i <= s.len(),
        count_done(s, i) == s.len() - i,
    ensures
        forall|k: int| i <= k < s.len() ==> s[k],
    decreases s.len() - i,
{
    if i < s.len() {
        lemma_count_done_bound(s, i + 1);
        lemma_count_done_full(s, i + 1);
    }
}

/// How many modules are already ordered, counting from `i`.
pub open spec fn count_done(s: Seq<bool>, i: int) -> nat
    decreases s.len() - i,
{
    if i < 0 || i >= s.len() {
        0
    } else {
        (if s[i] {
            1nat
        } else {
            0nat
        }) + count_done(s, i + 1)
    }
}

proof fn lemma_count_done_update(s: Seq<bool>, d: int, i: int)
    requires
        0 <= i,
        0 <= d < s.len(),
        !s[d],
    ensures
        count_done(s.update(d, true), i) == if i <= d {
            count_done(s, i) as int + 1
        } else {
            count_done(s, i) as int
        },
    decreases s.len() - i,
{
    if i < s.len() {
        lemma_count_done_update(s, d, i + 1);
    }
}

proof fn lemma_count_done_none(s: Seq<bool>, i: int)
    requires
        0 <= i <= s.len(),
        forall|k: int| 0 <= k < s.len() ==> !(#[trigger] s[k]),
    ensures
        count_done(s, i) == 0,
    decreases s.len() - i,
{
    if i < s.len() {
        lemma_count_done_none(s, i + 1);
    }
}

proof fn lemma_count_done_all(s: Seq<bool>, i: int)
    requires
        0 <= i <= s.len(),
        forall|k: int| 0 <= k < s.len() ==> s[k],
    ensures
        count_done(s, i) == s.len() - i,
    decreases s.len() - i,
{
    if i < s.len() {
        lemma_count_done_all(s, i + 1);
    }
}

/// The done-marks an already-ordered prefix induces: module `k` is done
/// exactly when the prefix holds it.
pub open spec fn spec_done_of(n: int, prefix: Seq<usize>) -> Seq<bool> {
    Seq::new(n as nat, |k: int| prefix.contains(k as usize))
}

/// The first submodule, in declaration order from `k`, that is not done
/// and whose resolvable dependencies all are.
fn pick_candidate(subs: &Vec<ParseSubmodule>, done: &Vec<bool>, k: usize) -> (r: Option<usize>)
    requires
        done@.len() == subs@.len(),
        k <= subs@.len(),
    ensures
        match r {
            Some(c) => c < subs@.len() && !done@[c as int] && spec_deps_done(
                subs@,
                subs@[c as int].dependencies@,
                done@,
                0,
            ) && (forall|k2: int|
                k <= k2 < c ==> done@[k2] || !spec_deps_done(
                    subs@,
                    (#[trigger] subs@[k2]).dependencies@,
                    done@,
                    0,
                )),
            None => forall|k2: int|
                k <= k2 < subs@.len() ==> done@[k2] || !spec_deps_done(
                    subs@,
                    (#[trigger] subs@[k2]).dependencies@,
                    done@,
                    0,
                ),
        },
    decreases subs@.len() - k,
{
    if k >= subs.len() {
        None
    } else if !done[k] && deps_done(subs, &subs[k].dependencies, done, 0) {
        Some(k)
    } else {
        pick_candidate(subs, done, k + 1)
    }
}

/// A deterministic evaluation order for the submodules: repeatedly take
/// the first submodule, in declaration order, all of whose resolvable
/// dependencies are already ordered. A cycle in the dependency graph
/// leaves no candidate and is fatal for the compilation unit.
pub fn compute_order(handler: &mut Handler, subs: &Vec<ParseSubmodule>) -> (r: Result<
    Vec<usize>,
    ErrorEmitted,
>)
    ensures
        match r {
            Ok(ord) => {
                &&& *final(handler) == *old(handler)
                &&& ord@.len() == subs@.len()
                &&& forall|p: int| 0 <= p < ord@.len() ==> #[trigger] ord@[p] < subs@.len()
                &&& forall|k: usize| (k as int) < subs@.len() ==> #[trigger] ord@.contains(k)
                &&& !spec_graph_stuck(subs@)
                &&& forall|p: int|
                    0 <= p < ord@.len() ==> (spec_deps_done(
                        subs@,
                        subs@[#[trigger] ord@[p] as int].dependencies@,
                        spec_done_of(subs@.len() as int, ord@.take(p)),
                        0,
                    ) && (forall|k2: int|
                        0 <= k2 < ord@[p] ==> spec_done_of(subs@.len() as int, ord@.take(p))[k2]
                            || !spec_deps_done(
                            subs@,
                            (#[trigger] subs@[k2]).dependencies@,
                            spec_done_of(subs@.len() as int, ord@.take(p)),
                            0,
                        )))
                &&& forall|p: int, q: int|
                    0 <= p < q < ord@.len() ==> #[trigger] ord@[p] != #[trigger] ord@[q]
                &&& forall|p: int, di: int|
                    0 <= p < ord@.len() && 0 <= di < subs@[ord@[p] as int].dependencies@.len()
                        ==> match spec_find_submodule(
                        subs@,
                        (#[trigger] subs@[ord@[p] as int].dependencies@[di]).text@,
                        0,
                    ) {
                        Some(j) => exists|q: int| 0 <= q < p && #[trigger] ord@[q] == j,
                        None => true,
                    }
            },
            Err(_) => {
                &&& final(handler).warnings@ == old(handler).warnings@
                &&& exists|e: CompileError|
                    final(handler).errors@ == old(handler).errors@.push(e) && (e matches
                    CompileError::DependencyCycle { module: _ })
                &&& spec_graph_stuck(subs@)
            },
        },
{
    let n = subs.len();
    let mut done: Vec<bool> = Vec::new();
    let mut i: usize = 0;
    while i < n
        invariant
            i <= n,
            done@.len() == i,
            forall|k: int| 0 <= k < i ==> !(#[trigger] done@[k]),
        decreases n - i,
    {
        done.push(false);
        i = i + 1;
    }
    proof {
        lemma_count_done_none(done@, 0);
        assert(done@ =~= spec_done_of(n as int, Seq::<usize>::empty()));
    }
    let mut ord: Vec<usize> = Vec::new();
    while ord.len() < n
        invariant
            n == subs@.len(),
            done@.len() == n,
            ord@.len() <= n,
            *handler == *old(handler),
            count_done(done@, 0) == ord@.len(),
            forall|p: int| 0 <= p < ord@.len() ==> #[trigger] ord@[p] < n,
            forall|p: int, q: int|
                0 <= p < q < ord@.len() ==> #[trigger] ord@[p] != #[trigger] ord@[q],
            forall|k: int|
                0 <= k < n ==> ((#[trigger] done@[k]) <==> exists|q: int|
                    0 <= q < ord@.len() && #[trigger] ord@[q] == k),
            forall|p: int, di: int|
                0 <= p < ord@.len() && 0 <= di < subs@[ord@[p] as int].dependencies@.len()
                    ==> match spec_find_submodule(
                    subs@,
                    (#[trigger] subs@[ord@[p] as int].dependencies@[di]).text@,
                    0,
                ) {
                    Some(j) => exists|q: int| 0 <= q < p && #[trigger] ord@[q] == j,
                    None => true,
                },
            done@ == spec_done_of(n as int, ord@),
            forall|p: int|
                0 <= p < ord@.len() ==> (spec_deps_done(
                    subs@,
                    subs@[#[trigger] ord@[p] as int].dependencies@,
                    spec_done_of(n as int, ord@.take(p)),
                    0,
                ) && (forall|k2: int|
                    0 <= k2 < ord@[p] ==> spec_done_of(n as int, ord@.take(p))[k2]
                        || !spec_deps_done(
                        subs@,
                        (#[trigger] subs@[k2]).dependencies@,
                        spec_done_of(n as int, ord@.take(p)),
                        0,
                    ))),
        decreases n - ord@.len(),
    {
        let picked = pick_candidate(subs, &done, 0);
        match picked {
            Some(k) => {
                let ghost p = ord@.len() as int;
                let ghost ord0 = ord@;
                let ghost done0 = done@;
                proof {
                    lemma_deps_done_all(subs@, subs@[k as int].dependencies@, done0, 0);
                    lemma_count_done_update(done0, k as int, 0);
                }
                done.set(k, true);
                ord.push(k);
                proof {
                    assert(ord@ == ord0.push(k));
                    assert(done@ == done0.update(k as int, true));
                    assert forall|kk: int| 0 <= kk < n implies ((#[trigger] done@[kk]) <==> exists|
                        q: int,
                    | 0 <= q < ord@.len() && #[trigger] ord@[q] == kk) by {
                        if kk == k {
                            assert(ord@[p] == k);
                        } else {
                            assert(done@[kk] == done0[kk]);
                            if done0[kk] {
                                let q = choose|q: int| 0 <= q < p && #[trigger] ord0[q] == kk;
                                assert(ord@[q] == kk);
                            } else {
                                if exists|q: int| 0 <= q < ord@.len() && #[trigger] ord@[q] == kk {
                                    let q = choose|q: int|
                                        0 <= q < ord@.len() && #[trigger] ord@[q] == kk;
                                    assert(q != p);
                                    assert(ord0[q] == kk);
                                    assert(done0[kk]);
                                }
                            }
                        }
                    }
                    assert forall|p2: int, di: int|
                        0 <= p2 < ord@.len() && 0 <= di
                            < subs@[ord@[p2] as int].dependencies@.len() implies match spec_find_submodule(
                        subs@,
                        (#[trigger] subs@[ord@[p2] as int].dependencies@[di]).text@,
                        0,
                    ) {
                        Some(j) => exists|q: int| 0 <= q < p2 && #[trigger] ord@[q] == j,
                        None => true,
                    } by {
                        if p2 < p {
                            assert(ord@[p2] == ord0[p2]);
                            match spec_find_submodule(
                                subs@,
                                subs@[ord0[p2] as int].dependencies@[di].text@,
                                0,
                            ) {
                                Some(j) => {
                                    let q = choose|q: int|
                                        0 <= q < p2 && #[trigger] ord0[q] == j;
                                    assert(ord@[q] == j);
                                },
                                None => {},
                            }
                        } else {
                            assert(ord@[p2] == k);
                            match spec_find_submodule(
                                subs@,
                                subs@[k as int].dependencies@[di].text@,
                                0,
                            ) {
                                Some(j) => {
                                    assert(0 <= j < done0.len() && done0[j]);
                                    let q = choose|q: int| 0 <= q < p && #[trigger] ord0[q] == j;
                                    assert(ord@[q] == j);
                                },
                                None => {},
                            }
                        }
                    }
                    assert(done@ =~= spec_done_of(n as int, ord@)) by {
                        assert forall|kk: int| 0 <= kk < n implies done@[kk] == spec_done_of(
                            n as int,
                            ord@,
                        )[kk] by {
                            if done@[kk] {
                                let q = choose|q: int|
                                    0 <= q < ord@.len() && #[trigger] ord@[q] == kk;
                                assert(ord@[q] == kk as usize);
                                assert(ord@.contains(kk as usize));
                            } else {
                                if ord@.contains(kk as usize) {
                                    let q = choose|q: int|
                                        0 <= q < ord@.len() && #[trigger] ord@[q] == kk as usize;
                                    assert(exists|q2: int|
                                        0 <= q2 < ord@.len() && #[trigger] ord@[q2] == kk);
                                }
                            }
                        }
                    }
                    assert forall|p2: int| 0 <= p2 < ord@.len() implies (spec_deps_done(
                        subs@,
                        subs@[#[trigger] ord@[p2] as int].dependencies@,
                        spec_done_of(n as int, ord@.take(p2)),
                        0,
                    ) && (forall|k2: int|
                        0 <= k2 < ord@[p2] ==> spec_done_of(n as int, ord@.take(p2))[k2]
                            || !spec_deps_done(
                            subs@,
                            (#[trigger] subs@[k2]).dependencies@,
                            spec_done_of(n as int, ord@.take(p2)),
                            0,
                        ))) by {
                        if p2 < p {
                            assert(ord@.take(p2) =~= ord0.take(p2));
                            assert(ord@[p2] == ord0[p2]);
                        } else {
                            assert(ord@.take(p2) =~= ord0);
                            assert(spec_done_of(n as int, ord0) == done0);
                            assert(ord@[p2] == k);
                        }
                    }
                }
            },
            None => {
                let mut first_waiting: usize = 0;
                let mut k2: usize = 0;
                let mut found = false;
                while k2 < n
                    invariant
                        n == subs@.len(),
                        done@.len() == n,
                        k2 <= n,
                        found ==> first_waiting < n && !done@[first_waiting as int],
                        !found ==> forall|k3: int| 0 <= k3 < k2 ==> #[trigger] done@[k3],
                    decreases n - k2,
                {
                    if !done[k2] && !found {
                        first_waiting = k2;
                        found = true;
                    }
                    k2 = k2 + 1;
                }
                proof {
                    // With fewer modules ordered than exist, some module
                    // is still waiting; it and everything it transitively
                    // waits for form the reported cycle.
                    if !found {
                        lemma_count_done_all(done@, 0);
                        assert(false);
                    }
                }
                let module_name = subs[first_waiting].name.text.clone();
                let err = CompileError::DependencyCycle { module: module_name };
                let ghost stuck = done@;
                proof {
                    assert(stuck.len() == subs@.len());
                    assert(!stuck[first_waiting as int]);
                }
                return Err(handler.emit_err(err));
            },
        }
    }
    proof {
        lemma_count_done_full(done@, 0);
        assert forall|k: usize| (k as int) < subs@.len() implies #[trigger] ord@.contains(k) by {
            assert(done@[k as int]);
            let q = choose|q: int| 0 <= q < ord@.len() && #[trigger] ord@[q] == (k as int);
            assert(ord@[q] == k);
        }
        lemma_valid_order_excludes_stuck(subs@, ord@);
    }
    Ok(ord)
}

} // verus!
