//! The orchestrator's planning and bookkeeping: depth-first dependency
//! resolution for starts (with cycle detection as a hardening measure),
//! stop and restart tracker updates, correlation of a freshly launched
//! service to a live process, and the batch-start order.
//!
//! Launching, terminating and probing processes are OS work and happen
//! outside the library; these functions compute exactly what to do and
//! record what the orchestrator believes.

use vstd::prelude::*;
use vstd::seq_lib::seq_to_set_is_finite;
use vstd::set_lib::lemma_len_subset;
use vstd::string::StringExecFns;
use crate::registry::{Registry, has_service, service_index, spec_service};
use crate::text::{seq_views, names_contain, names_index};
use crate::tracker::ProcessTracker;
use crate::types::ServiceError;

verus! {

/// Every dependency named anywhere in `v` is itself registered.
pub open spec fn closed_deps(v: Seq<crate::registry::ServiceConfigV>) -> bool {
    forall|i: int, j: int|
        0 <= i < v.len() && 0 <= j < v[i].dependencies.len() ==> has_service(
            v,
            #[trigger] v[i].dependencies[j],
        )
}

/// `c` is a dependency cycle: each entry names a registered service, each
/// next entry is a dependency of the previous one, and the last entry is
/// the first again.
pub open spec fn is_dep_cycle(v: Seq<crate::registry::ServiceConfigV>, c: Seq<Seq<char>>) -> bool {
    &&& c.len() >= 2
    &&& c[0] == c[c.len() - 1]
    &&& forall|i: int| 0 <= i < c.len() - 1 ==> has_service(v, #[trigger] c[i])
    &&& forall|i: int|
        0 <= i < c.len() - 1 ==> spec_service(v, #[trigger] c[i]).dependencies.contains(c[i + 1])
}

/// `rank` certifies the dependency graph acyclic: every dependency ranks
/// strictly below its dependent.
pub open spec fn rank_ok(
    v: Seq<crate::registry::ServiceConfigV>,
    rank: Map<Seq<char>, nat>,
) -> bool {
    forall|i: int, j: int|
        0 <= i < v.len() && 0 <= j < v[i].dependencies.len() ==> rank[
            #[trigger] v[i].dependencies[j]
        ] < rank[v[i].name]
}

/// The dependency graph of `v` has no cycle, witnessed by a rank function.
pub open spec fn acyclic(v: Seq<crate::registry::ServiceConfigV>) -> bool {
    exists|rank: Map<Seq<char>, nat>| rank_ok(v, rank)
}

/// One step along a cycle strictly lowers the rank.
proof fn lemma_cycle_step(
    v: Seq<crate::registry::ServiceConfigV>,
    rank: Map<Seq<char>, nat>,
    c: Seq<Seq<char>>,
    i: int,
)
    requires
        rank_ok(v, rank),
        is_dep_cycle(v, c),
        0 <= i < c.len() - 1,
    ensures
        rank[c[i + 1]] < rank[c[i]],
{
    assert(has_service(v, c[i]));
    let k = service_index(v, c[i]);
    assert(0 <= k < v.len() && v[k].name == c[i]);
    assert(spec_service(v, c[i]).dependencies.contains(c[i + 1]));
    let deps = v[k].dependencies;
    let j = choose|j: int| 0 <= j < deps.len() && deps[j] == c[i + 1];
    assert(0 <= j < deps.len() && deps[j] == c[i + 1]);
    assert(rank[v[k].dependencies[j]] < rank[v[k].name]);
}

/// Walking a cycle from its head only ever lowers the rank.
proof fn lemma_cycle_descends(
    v: Seq<crate::registry::ServiceConfigV>,
    rank: Map<Seq<char>, nat>,
    c: Seq<Seq<char>>,
    i: int,
)
    requires
        rank_ok(v, rank),
        is_dep_cycle(v, c),
        1 <= i < c.len(),
    ensures
        rank[c[i]] < rank[c[0]],
    decreases i,
{
    if i == 1 {
        lemma_cycle_step(v, rank, c, 0);
    } else {
        lemma_cycle_descends(v, rank, c, i - 1);
        lemma_cycle_step(v, rank, c, i - 1);
    }
}

/// A dependency cycle refutes every rank function: a graph with a cycle
/// is not acyclic.
pub proof fn lemma_cycle_not_acyclic(
    v: Seq<crate::registry::ServiceConfigV>,
    c: Seq<Seq<char>>,
)
    requires
        is_dep_cycle(v, c),
    ensures
        !acyclic(v),
{
    if acyclic(v) {
        let rank = choose|rank: Map<Seq<char>, nat>| rank_ok(v, rank);
        assert(rank_ok(v, rank));
        lemma_cycle_descends(v, rank, c, c.len() - 1);
        assert(false);
    }
}

/// The current depth-first path: every entry registered, all distinct, and
/// each next entry a dependency of the previous one.
pub open spec fn chain_ok(v: Seq<crate::registry::ServiceConfigV>, chain: Seq<String>) -> bool {
    &&& forall|i: int| 0 <= i < chain.len() ==> has_service(v, (#[trigger] chain[i])@)
    &&& forall|i: int, j: int|
        #![trigger chain[i], chain[j]]
        0 <= i < j < chain.len() ==> chain[i]@ != chain[j]@
    &&& forall|i: int|
        0 <= i < chain.len() - 1 ==> spec_service(v, (#[trigger] chain[i])@).dependencies.contains(
            chain[i + 1]@,
        )
}

/// A depth-first path visits each registered service at most once, so it is
/// never longer than the registry.
proof fn lemma_chain_bounded(v: Seq<crate::registry::ServiceConfigV>, chain: Seq<String>)
    requires
        crate::registry::unique_names(v),
        chain_ok(v, chain),
    ensures
        chain.len() <= v.len(),
{
    let q = seq_views(chain);
    assert(q.no_duplicates()) by {
        assert forall|i: int, j: int|
            0 <= i < q.len() && 0 <= j < q.len() && i != j implies q[i] != q[j] by {
            if i < j {
                assert(chain[i]@ != chain[j]@);
            } else {
                assert(chain[j]@ != chain[i]@);
            }
        }
    }
    q.unique_seq_to_set();
    let vn = Seq::new(v.len(), |i: int| v[i].name);
    vn.lemma_cardinality_of_set();
    seq_to_set_is_finite(vn);
    assert(q.to_set().subset_of(vn.to_set())) by {
        assert forall|x: Seq<char>| q.to_set().contains(x) implies vn.to_set().contains(x) by {
            assert(q.contains(x));
            let i = choose|i: int| 0 <= i < q.len() && q[i] == x;
            assert(chain[i]@ == x);
            assert(has_service(v, x));
            let k = service_index(v, x);
            assert(vn[k] == x);
            assert(vn.contains(x));
        }
    }
    lemma_len_subset(q.to_set(), vn.to_set());
}

/// `d` is satisfied for the service at position `i` of the plan `q`: it is
/// already running, or scheduled earlier in the plan.
pub open spec fn dep_covered(runs: Seq<Seq<char>>, q: Seq<Seq<char>>, i: int, d: Seq<char>) -> bool {
    runs.contains(d) || exists|k: int| 0 <= k < i && q[k] == d
}

/// Invariant of the schedule built so far: every scheduled name is
/// registered, scheduled once, was not observed running, and has each of
/// its dependencies running or scheduled earlier.
pub open spec fn order_inv(
    v: Seq<crate::registry::ServiceConfigV>,
    runs: Seq<Seq<char>>,
    q: Seq<Seq<char>>,
) -> bool {
    &&& forall|i: int| 0 <= i < q.len() ==> has_service(v, #[trigger] q[i])
    &&& forall|i: int, j: int| #![trigger q[i], q[j]] 0 <= i < j < q.len() ==> q[i] != q[j]
    &&& forall|i: int| 0 <= i < q.len() ==> !runs.contains(#[trigger] q[i])
    &&& forall|i: int, j: int|
        #![trigger spec_service(v, q[i]).dependencies[j]]
        0 <= i < q.len() && 0 <= j < spec_service(v, q[i]).dependencies.len() ==> dep_covered(
            runs,
            q,
            i,
            spec_service(v, q[i]).dependencies[j],
        )
}

/// What a start plan promises: non-empty, the requested service last, every
/// entry registered and scheduled once, every entry but the last was not
/// running, and every entry's dependencies are running or scheduled before
/// it — so each dependency is started before its dependent.
pub open spec fn plan_ok(
    v: Seq<crate::registry::ServiceConfigV>,
    runs: Seq<Seq<char>>,
    q: Seq<Seq<char>>,
    root: Seq<char>,
) -> bool {
    &&& q.len() >= 1
    &&& q[q.len() - 1] == root
    &&& forall|i: int| 0 <= i < q.len() ==> has_service(v, #[trigger] q[i])
    &&& forall|i: int, j: int| #![trigger q[i], q[j]] 0 <= i < j < q.len() ==> q[i] != q[j]
    &&& forall|i: int| 0 <= i < q.len() - 1 ==> !runs.contains(#[trigger] q[i])
    &&& forall|i: int, j: int|
        #![trigger spec_service(v, q[i]).dependencies[j]]
        0 <= i < q.len() && 0 <= j < spec_service(v, q[i]).dependencies.len() ==> dep_covered(
            runs,
            q,
            i,
            spec_service(v, q[i]).dependencies[j],
        )
}

/// Membership in a string sequence is membership of its views.
proof fn lemma_views_contain(s: Seq<String>, n: Seq<char>)
    ensures
        names_contain(s, n) == seq_views(s).contains(n),
{
    if names_contain(s, n) {
        let i = choose|i: int| 0 <= i < s.len() && s[i]@ == n;
        assert(seq_views(s)[i] == n);
        assert(seq_views(s).contains(n));
    }
    if seq_views(s).contains(n) {
        let i = choose|i: int| 0 <= i < seq_views(s).len() && seq_views(s)[i] == n;
        assert(s[i]@ == n);
        assert(names_contain(s, n));
    }
}

/// A member of a prefix is a member of the whole.
proof fn lemma_prefix_contains(a: Seq<Seq<char>>, b: Seq<Seq<char>>, x: Seq<char>)
    requires
        a.is_prefix_of(b),
        a.contains(x),
    ensures
        b.contains(x),
{
    let i = choose|i: int| 0 <= i < a.len() && a[i] == x;
    assert(b[i] == x);
}

/// Depth-first visit of one service name during start planning. Skips names
/// observed running and names already scheduled, reports an unregistered
/// name, reports a cycle when the name is already on the current path, and
/// otherwise schedules the name's unsatisfied dependencies (recursively)
/// and then the name itself.
fn dfs_visit(
    reg: &Registry,
    running: &Vec<String>,
    name: &str,
    chain: &mut Vec<String>,
    order: &mut Vec<String>,
) -> (r: Result<(), ServiceError>)
    requires
        reg.wf(),
        chain_ok(reg@, old(chain)@),
        order_inv(reg@, seq_views(running@), seq_views(old(order)@)),
        forall|i: int|
            0 <= i < old(order)@.len() ==> !names_contain(
                old(chain)@,
                (#[trigger] old(order)@[i])@,
            ),
        old(chain)@.len() > 0 ==> spec_service(
            reg@,
            old(chain)@[old(chain)@.len() - 1]@,
        ).dependencies.contains(name@),
    ensures
        final(chain)@ == old(chain)@,
        order_inv(reg@, seq_views(running@), seq_views(final(order)@)),
        seq_views(old(order)@).is_prefix_of(seq_views(final(order)@)),
        forall|i: int|
            0 <= i < final(order)@.len() ==> !names_contain(
                old(chain)@,
                (#[trigger] final(order)@[i])@,
            ),
        match r {
            Ok(_) => names_contain(running@, name@) || names_contain(final(order)@, name@),
            Err(e) => {
                &&& (e == ServiceError::NotFound || e == ServiceError::DependencyCycle)
                &&& e == ServiceError::NotFound ==> (!has_service(reg@, name@) || !closed_deps(
                    reg@,
                ))
                &&& e == ServiceError::DependencyCycle ==> exists|c: Seq<Seq<char>>|
                    is_dep_cycle(reg@, c)
            },
        },
        (has_service(reg@, name@) && closed_deps(reg@) && acyclic(reg@)) ==> r is Ok,
    decreases reg@.len() - chain@.len(),
{
    if names_index(running, name).is_some() {
        return Ok(());
    }
    if names_index(order, name).is_some() {
        return Ok(());
    }
    let cfg = match reg.get(name) {
        Some(c) => c,
        None => {
            return Err(ServiceError::NotFound);
        },
    };
    match names_index(chain, name) {
        Some(j) => {
            proof {
                let cq = seq_views(chain@);
                let cyc = cq.subrange(j as int, cq.len() as int).push(name@);
                assert(cyc.len() == cq.len() - j + 1);
                assert forall|i: int| 0 <= i < cyc.len() - 1 implies has_service(
                    reg@,
                    #[trigger] cyc[i],
                ) by {
                    assert(cyc[i] == chain@[j + i]@);
                }
                assert forall|i: int| 0 <= i < cyc.len() - 1 implies spec_service(
                    reg@,
                    #[trigger] cyc[i],
                ).dependencies.contains(cyc[i + 1]) by {
                    assert(cyc[i] == chain@[j + i]@);
                    if i < cyc.len() - 2 {
                        assert(cyc[i + 1] == chain@[j + i + 1]@);
                    } else {
                        assert(j + i == chain@.len() - 1);
                        assert(cyc[i + 1] == name@);
                    }
                }
                assert(cyc[0] == chain@[j as int]@);
                assert(cyc[0] == name@);
                assert(cyc[cyc.len() - 1] == name@);
                assert(is_dep_cycle(reg@, cyc));
                if has_service(reg@, name@) && closed_deps(reg@) && acyclic(reg@) {
                    lemma_cycle_not_acyclic(reg@, cyc);
                    assert(false);
                }
            }
            return Err(ServiceError::DependencyCycle);
        },
        None => {},
    }
    proof {
        lemma_views_contain(running@, name@);
    }
    let ghost chain0 = chain@;
    let ghost order0 = order@;
    chain.push(String::from_str(name));
    proof {
        assert(chain@.len() == chain0.len() + 1);
        assert(chain@[chain0.len() as int]@ == name@);
        assert forall|i: int| 0 <= i < chain0.len() implies chain@[i] == chain0[i] by {}
        assert(chain_ok(reg@, chain@)) by {
            assert forall|i: int, j: int|
                #![trigger chain@[i], chain@[j]]
                0 <= i < j < chain@.len() implies chain@[i]@ != chain@[j]@ by {
                if j < chain0.len() {
                    assert(chain0[i]@ != chain0[j]@);
                } else {
                    assert(chain@[j]@ == name@);
                    assert(!names_contain(chain0, name@));
                    if chain@[i]@ == name@ {
                        assert(names_contain(chain0, name@));
                    }
                }
            }
            assert forall|i: int| 0 <= i < chain@.len() - 1 implies spec_service(
                reg@,
                (#[trigger] chain@[i])@,
            ).dependencies.contains(chain@[i + 1]@) by {
                if i < chain0.len() - 1 {
                    assert(chain@[i] == chain0[i]);
                    assert(chain@[i + 1] == chain0[i + 1]);
                } else {
                    assert(i == chain0.len() - 1);
                }
            }
        }
        assert forall|i: int| 0 <= i < order@.len() implies !names_contain(
            chain@,
            (#[trigger] order@[i])@,
        ) by {
            assert(!names_contain(chain0, order@[i]@));
            assert(!names_contain(order0, name@));
            if names_contain(chain@, order@[i]@) {
                let k = choose|k: int| 0 <= k < chain@.len() && chain@[k]@ == order@[i]@;
                if k < chain0.len() {
                    assert(names_contain(chain0, order@[i]@));
                } else {
                    assert(order@[i]@ == name@);
                    assert(names_contain(order0, name@));
                }
            }
        }
    }
    let deps_len = cfg.dependencies.len();
    let mut j: usize = 0;
    while j < deps_len
        invariant
            reg.wf(),
            j <= deps_len,
            deps_len == cfg.dependencies@.len(),
            cfg@ == spec_service(reg@, name@),
            has_service(reg@, name@),
            chain@.len() == chain0.len() + 1,
            forall|i: int| #![trigger chain@[i]] 0 <= i < chain0.len() ==> chain@[i] == chain0[i],
            chain@[chain0.len() as int]@ == name@,
            chain_ok(reg@, chain@),
            order_inv(reg@, seq_views(running@), seq_views(order@)),
            seq_views(order0).is_prefix_of(seq_views(order@)),
            forall|i: int|
                0 <= i < order@.len() ==> !names_contain(chain@, (#[trigger] order@[i])@),
            forall|k: int|
                0 <= k < j ==> (seq_views(running@).contains(#[trigger] cfg@.dependencies[k])
                    || seq_views(order@).contains(cfg@.dependencies[k])),
            !names_contain(running@, name@),
            old(chain)@ == chain0,
            old(order)@ == order0,
        decreases deps_len - j,
    {
        let dep = cfg.dependencies[j].as_str();
        proof {
            assert(cfg@.dependencies[j as int] == dep@);
            assert(chain@[chain@.len() - 1]@ == name@);
            assert(spec_service(reg@, chain@[chain@.len() - 1]@).dependencies.contains(dep@)) by {
                assert(spec_service(reg@, name@).dependencies[j as int] == dep@);
            }
            lemma_chain_bounded(reg@, chain@);
        }
        let ghost order_pre = order@;
        let ghost chain1 = chain@;
        match dfs_visit(reg, running, dep, chain, order) {
            Ok(_) => {
                proof {
                    lemma_views_contain(running@, dep@);
                    lemma_views_contain(order@, dep@);
                    assert forall|k: int|
                        0 <= k < j + 1 implies (seq_views(running@).contains(
                            #[trigger] cfg@.dependencies[k],
                        ) || seq_views(order@).contains(cfg@.dependencies[k])) by {
                        if k < j {
                            if seq_views(order_pre).contains(cfg@.dependencies[k]) {
                                lemma_prefix_contains(
                                    seq_views(order_pre),
                                    seq_views(order@),
                                    cfg@.dependencies[k],
                                );
                            }
                        }
                    }
                    lemma_prefix_trans(seq_views(order0), seq_views(order_pre), seq_views(order@));
                }
                j = j + 1;
            },
            Err(e) => {
                proof {
                    if e == ServiceError::NotFound {
                        if closed_deps(reg@) {
                            let k = service_index(reg@, name@);
                            assert(0 <= k < reg@.len() && reg@[k].name == name@);
                            assert(spec_service(reg@, name@) == reg@[k]);
                            assert(reg@[k].dependencies[j as int] == dep@);
                            assert(has_service(reg@, reg@[k].dependencies[j as int]));
                            assert(false);
                        }
                    }
                    if has_service(reg@, name@) && closed_deps(reg@) && acyclic(reg@) {
                        assert(has_service(reg@, dep@)) by {
                            let k = service_index(reg@, name@);
                            assert(spec_service(reg@, name@) == reg@[k]);
                            assert(reg@[k].dependencies[j as int] == dep@);
                        }
                        assert(false);
                    }
                    lemma_prefix_trans(seq_views(order0), seq_views(order_pre), seq_views(order@));
                }
                let ghost chain2 = chain@;
                let _ = chain.pop();
                proof {
                    assert(chain@ =~= chain0);
                    assert forall|i: int| 0 <= i < order@.len() implies !names_contain(
                        chain0,
                        (#[trigger] order@[i])@,
                    ) by {
                        assert(!names_contain(chain2, order@[i]@));
                        if names_contain(chain0, order@[i]@) {
                            let k = choose|k: int|
                                0 <= k < chain0.len() && chain0[k]@ == order@[i]@;
                            assert(chain2[k]@ == order@[i]@);
                        }
                    }
                }
                return Err(e);
            },
        }
    }
    let ghost chain2 = chain@;
    let _ = chain.pop();
    proof {
        assert(chain@ =~= chain0);
        assert(!names_contain(order@, name@)) by {
            if names_contain(order@, name@) {
                let i = choose|i: int| 0 <= i < order@.len() && order@[i]@ == name@;
                assert(!names_contain(chain2, order@[i]@));
                assert(chain2[chain0.len() as int]@ == name@);
            }
        }
        assert forall|i: int| 0 <= i < order@.len() implies !names_contain(
            chain0,
            (#[trigger] order@[i])@,
        ) by {
            assert(!names_contain(chain2, order@[i]@));
            if names_contain(chain0, order@[i]@) {
                let k = choose|k: int| 0 <= k < chain0.len() && chain0[k]@ == order@[i]@;
                assert(chain2[k]@ == order@[i]@);
            }
        }
    }
    let ghost order_pre = order@;
    order.push(String::from_str(name));
    proof {
        let q0 = seq_views(order_pre);
        let q1 = seq_views(order@);
        assert(q1 =~= q0.push(name@));
        let ln = q0.len() as int;
        assert(q1[ln] == name@);
        lemma_views_contain(running@, name@);
        assert forall|i: int, j2: int|
            #![trigger q1[i], q1[j2]]
            0 <= i < j2 < q1.len() implies q1[i] != q1[j2] by {
            if j2 < ln {
                assert(q0[i] != q0[j2]);
            } else {
                assert(q1[j2] == name@);
                if q1[i] == name@ {
                    assert(q0[i] == name@);
                    lemma_views_contain(order_pre, name@);
                }
            }
        }
        assert forall|i: int, j2: int|
            #![trigger spec_service(reg@, q1[i]).dependencies[j2]]
            0 <= i < q1.len() && 0 <= j2 < spec_service(reg@, q1[i]).dependencies.len()
            implies dep_covered(
                seq_views(running@),
                q1,
                i,
                spec_service(reg@, q1[i]).dependencies[j2],
            ) by {
            if i < ln {
                assert(q1[i] == q0[i]);
                let d = spec_service(reg@, q0[i]).dependencies[j2];
                assert(dep_covered(seq_views(running@), q0, i, d));
                if exists|k: int| 0 <= k < i && q0[k] == d {
                    let k = choose|k: int| 0 <= k < i && q0[k] == d;
                    assert(q1[k] == d);
                }
            } else {
                assert(q1[i] == name@);
                assert(spec_service(reg@, name@).dependencies == cfg@.dependencies);
                let d = spec_service(reg@, q1[i]).dependencies[j2];
                assert(seq_views(running@).contains(d) || seq_views(order_pre).contains(d));
                if seq_views(order_pre).contains(d) {
                    let k = choose|k: int| 0 <= k < q0.len() && q0[k] == d;
                    assert(q1[k] == d);
                    assert(0 <= k < i);
                }
            }
        }
        assert(order_inv(reg@, seq_views(running@), q1));
        assert(seq_views(order0).is_prefix_of(q1)) by {
            let qa = seq_views(order0);
            assert(qa.is_prefix_of(q0));
            assert(qa =~= q1.subrange(0, qa.len() as int));
        }
        assert forall|i: int| 0 <= i < order@.len() implies !names_contain(
            chain0,
            (#[trigger] order@[i])@,
        ) by {
            if i < order_pre.len() {
                assert(order@[i] == order_pre[i]);
            } else {
                assert(order@[i]@ == name@);
                assert(!names_contain(chain0, name@));
            }
        }
        assert(names_contain(order@, name@)) by {
            assert(order@[order@.len() - 1]@ == name@);
        }
    }
    Ok(())
}

/// Two prefix steps compose.
proof fn lemma_prefix_trans(a: Seq<Seq<char>>, b: Seq<Seq<char>>, c: Seq<Seq<char>>)
    requires
        a.is_prefix_of(b),
        b.is_prefix_of(c),
    ensures
        a.is_prefix_of(c),
{
    assert(a =~= c.subrange(0, a.len() as int));
}


/// The start command's decision core: computes the launch sequence for
/// `name` — its not-yet-running dependencies in depth-first order, each
/// before whatever depends on it, then `name` itself (the requested
/// service is always launched, whether or not it is running). An
/// unregistered `name` always fails with `NotFound`, before anything is
/// planned; `NotFound` otherwise means a dependency reached during
/// resolution is unregistered, and `DependencyCycle` comes only when the
/// dependency graph really has a cycle. On a registry whose dependencies
/// are all registered and acyclic, planning never fails.
pub fn start_plan(reg: &Registry, running: &Vec<String>, name: &str) -> (r: Result<
    Vec<String>,
    ServiceError,
>)
    requires
        reg.wf(),
    ensures
        match r {
            Ok(p) => has_service(reg@, name@) && plan_ok(
                reg@,
                seq_views(running@),
                seq_views(p@),
                name@,
            ),
            Err(e) => {
                &&& (e == ServiceError::NotFound || e == ServiceError::DependencyCycle)
                &&& !has_service(reg@, name@) ==> e == ServiceError::NotFound
                &&& e == ServiceError::NotFound ==> (!has_service(reg@, name@) || !closed_deps(
                    reg@,
                ))
                &&& e == ServiceError::DependencyCycle ==> exists|c: Seq<Seq<char>>|
                    is_dep_cycle(reg@, c)
            },
        },
        (has_service(reg@, name@) && closed_deps(reg@) && acyclic(reg@)) ==> r is Ok,
{
    let cfg = match reg.get(name) {
        Some(c) => c,
        None => {
            return Err(ServiceError::NotFound);
        },
    };
    let mut chain: Vec<String> = Vec::new();
    let mut order: Vec<String> = Vec::new();
    chain.push(String::from_str(name));
    proof {
        assert(chain@.len() == 1);
        assert(chain@[0]@ == name@);
    }
    let ghost chain0 = chain@;
    let deps_len = cfg.dependencies.len();
    let mut j: usize = 0;
    while j < deps_len
        invariant
            reg.wf(),
            j <= deps_len,
            deps_len == cfg.dependencies@.len(),
            cfg@ == spec_service(reg@, name@),
            has_service(reg@, name@),
            chain@ == chain0,
            chain0.len() == 1,
            chain0[0]@ == name@,
            chain_ok(reg@, chain@),
            order_inv(reg@, seq_views(running@), seq_views(order@)),
            forall|i: int|
                0 <= i < order@.len() ==> !names_contain(chain@, (#[trigger] order@[i])@),
            forall|k: int|
                0 <= k < j ==> (seq_views(running@).contains(#[trigger] cfg@.dependencies[k])
                    || seq_views(order@).contains(cfg@.dependencies[k])),
        decreases deps_len - j,
    {
        let dep = cfg.dependencies[j].as_str();
        proof {
            assert(cfg@.dependencies[j as int] == dep@);
            assert(chain@[chain@.len() - 1]@ == name@);
            assert(spec_service(reg@, chain@[chain@.len() - 1]@).dependencies.contains(dep@)) by {
                assert(spec_service(reg@, name@).dependencies[j as int] == dep@);
            }
        }
        let ghost order_pre = order@;
        match dfs_visit(reg, running, dep, &mut chain, &mut order) {
            Ok(_) => {
                proof {
                    lemma_views_contain(running@, dep@);
                    lemma_views_contain(order@, dep@);
                    assert forall|k: int|
                        0 <= k < j + 1 implies (seq_views(running@).contains(
                            #[trigger] cfg@.dependencies[k],
                        ) || seq_views(order@).contains(cfg@.dependencies[k])) by {
                        if k < j {
                            if seq_views(order_pre).contains(cfg@.dependencies[k]) {
                                lemma_prefix_contains(
                                    seq_views(order_pre),
                                    seq_views(order@),
                                    cfg@.dependencies[k],
                                );
                            }
                        }
                    }
                }
                j = j + 1;
            },
            Err(e) => {
                proof {
                    if e == ServiceError::NotFound {
                        if closed_deps(reg@) {
                            let k = service_index(reg@, name@);
                            assert(0 <= k < reg@.len() && reg@[k].name == name@);
                            assert(spec_service(reg@, name@) == reg@[k]);
                            assert(reg@[k].dependencies[j as int] == dep@);
                            assert(has_service(reg@, reg@[k].dependencies[j as int]));
                            assert(false);
                        }
                    }
                    if has_service(reg@, name@) && closed_deps(reg@) && acyclic(reg@) {
                        assert(has_service(reg@, dep@)) by {
                            let k = service_index(reg@, name@);
                            assert(spec_service(reg@, name@) == reg@[k]);
                            assert(reg@[k].dependencies[j as int] == dep@);
                        }
                        assert(false);
                    }
                }
                return Err(e);
            },
        }
    }
    proof {
        assert(!names_contain(order@, name@)) by {
            if names_contain(order@, name@) {
                let i = choose|i: int| 0 <= i < order@.len() && order@[i]@ == name@;
                assert(!names_contain(chain@, order@[i]@));
                assert(chain@[0]@ == name@);
            }
        }
    }
    let ghost order_pre = order@;
    order.push(String::from_str(name));
    proof {
        let q0 = seq_views(order_pre);
        let q1 = seq_views(order@);
        assert(q1 =~= q0.push(name@));
        let ln = q0.len() as int;
        assert(q1[ln] == name@);
        assert forall|i: int, j2: int|
            #![trigger q1[i], q1[j2]]
            0 <= i < j2 < q1.len() implies q1[i] != q1[j2] by {
            if j2 < ln {
                assert(q0[i] != q0[j2]);
            } else {
                assert(q1[j2] == name@);
                if q1[i] == name@ {
                    assert(q0[i] == name@);
                    lemma_views_contain(order_pre, name@);
                }
            }
        }
        assert forall|i: int, j2: int|
            #![trigger spec_service(reg@, q1[i]).dependencies[j2]]
            0 <= i < q1.len() && 0 <= j2 < spec_service(reg@, q1[i]).dependencies.len()
            implies dep_covered(
                seq_views(running@),
                q1,
                i,
                spec_service(reg@, q1[i]).dependencies[j2],
            ) by {
            if i < ln {
                assert(q1[i] == q0[i]);
                let d = spec_service(reg@, q0[i]).dependencies[j2];
                assert(dep_covered(seq_views(running@), q0, i, d));
                if exists|k: int| 0 <= k < i && q0[k] == d {
                    let k = choose|k: int| 0 <= k < i && q0[k] == d;
                    assert(q1[k] == d);
                }
            } else {
                assert(q1[i] == name@);
                assert(spec_service(reg@, name@).dependencies == cfg@.dependencies);
                let d = spec_service(reg@, q1[i]).dependencies[j2];
                assert(seq_views(running@).contains(d) || seq_views(order_pre).contains(d));
                if seq_views(order_pre).contains(d) {
                    let k = choose|k: int| 0 <= k < q0.len() && q0[k] == d;
                    assert(q1[k] == d);
                    assert(0 <= k < i);
                }
            }
        }
        assert(plan_ok(reg@, seq_views(running@), q1, name@));
    }
    Ok(order)
}

/// The stop half of the command surface: untracks `name` immediately and
/// reports the OS action to take — terminate whatever owns the configured
/// port, or nothing at all when no port is configured (a portless service
/// cannot be stopped, and the caller reports the defined negative result).
/// Fails with `NotFound` exactly when `name` is not registered, leaving the
/// tracker untouched.
pub fn begin_stop(reg: &Registry, tracker: &mut ProcessTracker, name: &str) -> (r: Result<
    Option<u16>,
    ServiceError,
>)
    requires
        reg.wf(),
        old(tracker).wf(),
    ensures
        final(tracker).wf(),
        match r {
            Ok(action) => {
                &&& has_service(reg@, name@)
                &&& action == spec_service(reg@, name@).port
                &&& final(tracker).record_of(name@) is None
                &&& final(tracker).restart_counts@ == old(tracker).restart_counts@
                &&& forall|n: Seq<char>|
                    n != name@ ==> #[trigger] final(tracker).record_of(n) == old(
                        tracker,
                    ).record_of(n)
            },
            Err(e) => e == ServiceError::NotFound && !has_service(reg@, name@) && *final(tracker)
                == *old(tracker),
        },
{
    match reg.get(name) {
        Some(cfg) => {
            let action = cfg.port;
            tracker.remove_process(name);
            Ok(action)
        },
        None => Err(ServiceError::NotFound),
    }
}

/// The restart bookkeeping: untracks `name` as a stop does, adds exactly
/// one to its persistent restart counter (whether or not the relaunch that
/// follows succeeds), and reports the same OS stop action as `begin_stop`.
/// Counters of other services, and records of other services, do not
/// change. Fails with `NotFound` exactly when `name` is not registered,
/// leaving the tracker untouched.
pub fn begin_restart(reg: &Registry, tracker: &mut ProcessTracker, name: &str) -> (r: Result<
    Option<u16>,
    ServiceError,
>)
    requires
        reg.wf(),
        old(tracker).wf(),
    ensures
        final(tracker).wf(),
        match r {
            Ok(action) => {
                &&& has_service(reg@, name@)
                &&& action == spec_service(reg@, name@).port
                &&& final(tracker).record_of(name@) is None
                &&& final(tracker).count_of(name@) == if old(tracker).count_of(name@) < u32::MAX {
                    (old(tracker).count_of(name@) + 1) as u32
                } else {
                    u32::MAX
                }
                &&& forall|n: Seq<char>|
                    n != name@ ==> #[trigger] final(tracker).count_of(n) == old(tracker).count_of(
                        n,
                    )
                &&& forall|n: Seq<char>|
                    n != name@ ==> #[trigger] final(tracker).record_of(n) == old(
                        tracker,
                    ).record_of(n)
            },
            Err(e) => e == ServiceError::NotFound && !has_service(reg@, name@) && *final(tracker)
                == *old(tracker),
        },
{
    match reg.get(name) {
        Some(cfg) => {
            let action = cfg.port;
            tracker.remove_process(name);
            tracker.increment_restart_count(name);
            Ok(action)
        },
        None => Err(ServiceError::NotFound),
    }
}

/// The auto-restart toggle of the command surface: delegates to the
/// registry and fails with `NotFound` exactly when `name` is not
/// registered.
pub fn toggle_auto_restart(reg: &mut Registry, name: &str, enabled: bool) -> (r: Result<
    bool,
    ServiceError,
>)
    requires
        old(reg).wf(),
    ensures
        final(reg).wf(),
        match r {
            Ok(b) => {
                &&& b
                &&& has_service(old(reg)@, name@)
                &&& final(reg)@ == old(reg)@.update(
                    crate::registry::service_index(old(reg)@, name@),
                    crate::registry::ServiceConfigV {
                        auto_restart: enabled,
                        ..spec_service(old(reg)@, name@)
                    },
                )
            },
            Err(e) => e == ServiceError::NotFound && !has_service(old(reg)@, name@) && final(reg)@
                == old(reg)@,
        },
{
    if reg.set_auto_restart(name, enabled) {
        Ok(true)
    } else {
        Err(ServiceError::NotFound)
    }
}

/// After a launch, correlates the new service to a live process by the
/// snapshot heuristic and, when one is found, tracks it under `name`. The
/// tracker's counters and the records of other services never change.
pub fn correlate_and_track(
    tracker: &mut ProcessTracker,
    snap: &Vec<crate::status::ProcEntry>,
    name: &str,
    port: Option<u16>,
) -> (r: Option<u32>)
    requires
        old(tracker).wf(),
    ensures
        final(tracker).wf(),
        final(tracker).restart_counts@ == old(tracker).restart_counts@,
        forall|n: Seq<char>|
            n != name@ ==> #[trigger] final(tracker).record_of(n) == old(tracker).record_of(n),
        match r {
            Some(pid) => {
                &&& crate::status::snapshot_has_match(snap@, name@, port)
                &&& pid == snap@[crate::status::first_match_index(snap@, name@, port)].pid
                &&& match final(tracker).record_of(name@) {
                    Some(info) => info.pid == pid && info.restart_count == old(tracker).count_of(
                        name@,
                    ) && info.health_status == crate::types::Health::Unknown
                        && info.last_health_check is None,
                    None => false,
                }
            },
            None => !crate::status::snapshot_has_match(snap@, name@, port)
                && final(tracker).records@ == old(tracker).records@,
        },
{
    match crate::status::find_service_process(snap, name, port) {
        Some(i) => {
            let pid = snap[i].pid;
            tracker.track_process(String::from_str(name), pid);
            Some(pid)
        },
        None => None,
    }
}


/// What one insertion step preserves while the batch order is built:
/// inserting a fresh registered name at its sorted position keeps the pair
/// list sorted by count, duplicate-free, correctly counted, and free of
/// names the builder has not reached yet.
proof fn lemma_pairs_insert(
    v: Seq<crate::registry::ServiceConfigV>,
    pre: Seq<(String, usize)>,
    p: int,
    x: (String, usize),
    k: int,
)
    requires
        crate::registry::unique_names(v),
        0 <= k < v.len(),
        pre.len() == k,
        0 <= p <= pre.len(),
        forall|i: int| 0 <= i < pre.len() ==> has_service(v, (#[trigger] pre[i]).0@),
        forall|i: int|
            0 <= i < pre.len() ==> (#[trigger] pre[i]).1 == spec_service(
                v,
                pre[i].0@,
            ).dependencies.len(),
        forall|i: int, j: int|
            #![trigger pre[i], pre[j]]
            0 <= i < j < pre.len() ==> pre[i].0@ != pre[j].0@,
        forall|i: int, j: int|
            #![trigger pre[i], pre[j]]
            0 <= i < j < pre.len() ==> pre[i].1 <= pre[j].1,
        forall|i: int, t: int|
            #![trigger pre[i], v[t]]
            0 <= i < pre.len() && k <= t < v.len() ==> pre[i].0@ != v[t].name,
        x.0@ == v[k].name,
        has_service(v, x.0@),
        x.1 == spec_service(v, x.0@).dependencies.len(),
        forall|q: int| 0 <= q < p ==> (#[trigger] pre[q]).1 <= x.1,
        p < pre.len() ==> pre[p].1 > x.1,
    ensures
        ({
            let post = pre.insert(p, x);
            &&& post.len() == k + 1
            &&& (forall|i: int| 0 <= i < post.len() ==> has_service(v, (#[trigger] post[i]).0@))
            &&& (forall|i: int|
                0 <= i < post.len() ==> (#[trigger] post[i]).1 == spec_service(
                    v,
                    post[i].0@,
                ).dependencies.len())
            &&& (forall|i: int, j: int|
                #![trigger post[i], post[j]]
                0 <= i < j < post.len() ==> post[i].0@ != post[j].0@)
            &&& (forall|i: int, j: int|
                #![trigger post[i], post[j]]
                0 <= i < j < post.len() ==> post[i].1 <= post[j].1)
            &&& (forall|i: int, t: int|
                #![trigger post[i], v[t]]
                0 <= i < post.len() && k + 1 <= t < v.len() ==> post[i].0@ != v[t].name)
        }),
{
    let post = pre.insert(p, x);
    pre.insert_ensures(p, x);
    assert forall|q: int| #![trigger post[q]] 0 <= q < post.len() implies (if q < p {
        post[q] == pre[q]
    } else if q == p {
        post[q] == x
    } else {
        post[q] == pre[q - 1]
    }) by {
        if q > p {
            assert(post[q - 1 + 1] == pre[q - 1]);
        }
    }
    assert forall|i: int, j: int|
        #![trigger post[i], post[j]]
        0 <= i < j < post.len() implies post[i].1 <= post[j].1 by {
        if i == p {
            let j0 = j - 1;
            if p < pre.len() && j0 > p {
                assert(pre[p].1 <= pre[j0].1);
            }
        } else if j == p {
            assert(pre[i].1 <= x.1);
        } else if i < p && j > p {
            let j0 = j - 1;
            assert(pre[i].1 <= x.1);
            if p < pre.len() && j0 > p {
                assert(pre[p].1 <= pre[j0].1);
            }
        } else if i < p && j < p {
            assert(pre[i].1 <= pre[j].1);
        } else {
            assert(pre[i - 1].1 <= pre[j - 1].1);
        }
    }
    assert forall|i: int, j: int|
        #![trigger post[i], post[j]]
        0 <= i < j < post.len() implies post[i].0@ != post[j].0@ by {
        if i == p {
            let j0 = j - 1;
            assert(pre[j0].0@ != v[k].name);
        } else if j == p {
            assert(pre[i].0@ != v[k].name);
        } else {
            let i0: int = if i < p { i } else { i - 1 };
            let j0: int = if j < p { j } else { j - 1 };
            assert(pre[i0].0@ != pre[j0].0@);
        }
    }
    assert forall|i: int, t: int|
        #![trigger post[i], v[t]]
        0 <= i < post.len() && k + 1 <= t < v.len() implies post[i].0@ != v[t].name by {
        if i == p {
            assert(v[k].name != v[t].name);
        } else {
            let i0: int = if i < p { i } else { i - 1 };
            assert(pre[i0].0@ != v[t].name);
        }
    }
}

/// A duplicate-free list of registered names as long as the registry
/// covers every registered name.
proof fn lemma_all_names_covered(v: Seq<crate::registry::ServiceConfigV>, names: Seq<String>)
    requires
        crate::registry::unique_names(v),
        names.len() == v.len(),
        forall|i: int| 0 <= i < names.len() ==> has_service(v, (#[trigger] names[i])@),
        forall|i: int, j: int|
            #![trigger names[i], names[j]]
            0 <= i < j < names.len() ==> names[i]@ != names[j]@,
    ensures
        forall|t: int| 0 <= t < v.len() ==> names_contain(names, (#[trigger] v[t]).name),
{
    let q = seq_views(names);
    assert(q.no_duplicates()) by {
        assert forall|i: int, j: int|
            0 <= i < q.len() && 0 <= j < q.len() && i != j implies q[i] != q[j] by {
            if i < j {
                assert(names[i]@ != names[j]@);
            } else {
                assert(names[j]@ != names[i]@);
            }
        }
    }
    q.unique_seq_to_set();
    let vn = Seq::new(v.len(), |i: int| v[i].name);
    assert(vn.no_duplicates()) by {
        assert forall|i: int, j: int|
            0 <= i < vn.len() && 0 <= j < vn.len() && i != j implies vn[i] != vn[j] by {
            if i < j {
                assert(v[i].name != v[j].name);
            } else {
                assert(v[j].name != v[i].name);
            }
        }
    }
    vn.unique_seq_to_set();
    seq_to_set_is_finite(vn);
    assert forall|t: int| 0 <= t < v.len() implies names_contain(
        names,
        (#[trigger] v[t]).name,
    ) by {
        if !names_contain(names, v[t].name) {
            let x = v[t].name;
            assert(vn[t] == x);
            assert(vn.to_set().contains(x));
            let small = vn.to_set().remove(x);
            vstd::set::axiom_set_remove_len(vn.to_set(), x);
            assert(q.to_set().subset_of(small)) by {
                assert forall|y: Seq<char>| q.to_set().contains(y) implies small.contains(y) by {
                    assert(q.contains(y));
                    let i = choose|i: int| 0 <= i < q.len() && q[i] == y;
                    assert(names[i]@ == y);
                    assert(has_service(v, y));
                    let kk = service_index(v, y);
                    assert(vn[kk] == y);
                    assert(vn.to_set().contains(y));
                    assert(y != x);
                }
            }
            vstd::set::axiom_set_remove_finite(vn.to_set(), x);
            lemma_len_subset(q.to_set(), small);
            assert(false);
        }
    }
}

/// The batch-start order: every registered service exactly once, sorted by
/// ascending count of direct dependencies — a deliberate approximation of
/// a topological order (services with equal counts, or with deeper
/// transitive chains, may start out of true dependency order).
pub fn start_all_order(reg: &Registry) -> (r: Vec<String>)
    requires
        reg.wf(),
    ensures
        r@.len() == reg@.len(),
        forall|i: int| 0 <= i < r@.len() ==> has_service(reg@, (#[trigger] r@[i])@),
        forall|i: int, j: int| #![trigger r@[i], r@[j]] 0 <= i < j < r@.len() ==> r@[i]@ != r@[j]@,
        forall|k: int| 0 <= k < reg@.len() ==> names_contain(r@, (#[trigger] reg@[k]).name),
        forall|i: int, j: int|
            #![trigger r@[i], r@[j]]
            0 <= i < j < r@.len() ==> spec_service(reg@, r@[i]@).dependencies.len()
                <= spec_service(reg@, r@[j]@).dependencies.len(),
{
    let services = reg.list();
    let n = services.len();
    let mut pairs: Vec<(String, usize)> = Vec::new();
    let mut k: usize = 0;
    while k < n
        invariant
            reg.wf(),
            n == services@.len(),
            n == reg@.len(),
            forall|t: int| 0 <= t < n ==> #[trigger] services@[t]@ == reg@[t],
            k <= n,
            pairs@.len() == k,
            forall|i: int| 0 <= i < pairs@.len() ==> has_service(reg@, (#[trigger] pairs@[i]).0@),
            forall|i: int|
                0 <= i < pairs@.len() ==> (#[trigger] pairs@[i]).1 == spec_service(
                    reg@,
                    pairs@[i].0@,
                ).dependencies.len(),
            forall|i: int, j: int|
                #![trigger pairs@[i], pairs@[j]]
                0 <= i < j < pairs@.len() ==> pairs@[i].0@ != pairs@[j].0@,
            forall|i: int, j: int|
                #![trigger pairs@[i], pairs@[j]]
                0 <= i < j < pairs@.len() ==> pairs@[i].1 <= pairs@[j].1,
            forall|i: int, t: int|
                #![trigger pairs@[i], reg@[t]]
                0 <= i < pairs@.len() && k <= t < n ==> pairs@[i].0@ != reg@[t].name,
        decreases n - k,
    {
        let cfg = &services[k];
        let cnt = cfg.dependencies.len();
        proof {
            assert(cfg@ == reg@[k as int]);
            crate::registry::lemma_service_index_unique(reg@, cfg@.name, k as int);
            assert(spec_service(reg@, cfg@.name) == reg@[k as int]);
        }
        let m = pairs.len();
        let mut p: usize = 0;
        while p < m && pairs[p].1 <= cnt
            invariant
                m == pairs@.len(),
                p <= m,
                forall|q: int| 0 <= q < p ==> (#[trigger] pairs@[q]).1 <= cnt,
            decreases m - p,
        {
            p = p + 1;
        }
        let ghost pre = pairs@;
        let name_c = cfg.name.clone();
        let x = (name_c, cnt);
        proof {
            lemma_pairs_insert(reg@, pre, p as int, x, k as int);
        }
        pairs.insert(p, x);
        k = k + 1;
    }
    let total = pairs.len();
    let mut out: Vec<String> = Vec::new();
    let mut i2: usize = 0;
    while i2 < total
        invariant
            total == pairs@.len(),
            i2 <= total,
            out@.len() == i2,
            forall|q: int| 0 <= q < i2 ==> (#[trigger] out@[q])@ == pairs@[q].0@,
        decreases total - i2,
    {
        let nm = pairs[i2].0.clone();
        out.push(nm);
        i2 = i2 + 1;
    }
    proof {
        lemma_all_names_covered(reg@, out@);
    }
    out
}

} // verus!
