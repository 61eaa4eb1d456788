//! The auto-restart monitor's per-tick decision: which services want a
//! restart right now. The timer loop and the restarts themselves run
//! outside the library; each tick hands this module one snapshot and gets
//! back the exact list of services to restart.

use vstd::prelude::*;
use crate::registry::{Registry, ServiceConfigV, has_service, service_index, spec_service, unique_names};
use crate::status::{ProcEntry, resolve_status, spec_resolve};
use crate::text::seq_views;
use crate::tracker::ProcessTracker;
use crate::types::RunState;

verus! {

/// A tick restarts `cfg`'s service when its auto-restart flag is on and
/// the resolver does not report it running.
pub open spec fn needs_restart(
    cfg: ServiceConfigV,
    t: ProcessTracker,
    snap: Seq<ProcEntry>,
    now: u64,
) -> bool {
    cfg.auto_restart && spec_resolve(cfg, t.record_of(cfg.name), snap, now).status
        != RunState::Running
}

/// The names one monitor tick decides to restart, in registration order:
/// exactly the auto-restart-enabled services that do not resolve as
/// running.
pub open spec fn spec_tick(
    v: Seq<ServiceConfigV>,
    t: ProcessTracker,
    snap: Seq<ProcEntry>,
    now: u64,
) -> Seq<Seq<char>>
    decreases v.len(),
{
    if v.len() == 0 {
        Seq::empty()
    } else {
        let rest = spec_tick(v.drop_last(), t, snap, now);
        if needs_restart(v.last(), t, snap, now) {
            rest.push(v.last().name)
        } else {
            rest
        }
    }
}

/// Computes one monitor tick's restart list from the registry, the
/// tracker, and a fresh snapshot of the process table.
pub fn monitor_tick_plan(
    reg: &Registry,
    tracker: &ProcessTracker,
    snap: &Vec<ProcEntry>,
    now: u64,
) -> (r: Vec<String>)
    requires
        reg.wf(),
        tracker.wf(),
    ensures
        seq_views(r@) == spec_tick(reg@, *tracker, snap@, now),
{
    let services = reg.list();
    let n = services.len();
    let mut out: Vec<String> = Vec::new();
    let mut i: usize = 0;
    while i < n
        invariant
            reg.wf(),
            tracker.wf(),
            n == services@.len(),
            n == reg@.len(),
            forall|k: int| 0 <= k < n ==> #[trigger] services@[k]@ == reg@[k],
            i <= n,
            seq_views(out@) == spec_tick(reg@.subrange(0, i as int), *tracker, snap@, now),
        decreases n - i,
    {
        let cfg = &services[i];
        let ghost pre = out@;
        if cfg.auto_restart {
            let rec = tracker.get_process_info(cfg.name.as_str());
            let st = resolve_status(cfg, rec, snap, now);
            if !matches!(st.status, RunState::Running) {
                out.push(cfg.name.clone());
                proof {
                    assert(rec == tracker.record_of(cfg@.name));
                    assert(st@.status == spec_resolve(cfg@, rec, snap@, now).status);
                    assert(needs_restart(reg@[i as int], *tracker, snap@, now));
                    assert(seq_views(out@) =~= seq_views(pre).push(reg@[i as int].name));
                }
            } else {
                proof {
                    assert(rec == tracker.record_of(cfg@.name));
                    assert(st@.status == spec_resolve(cfg@, rec, snap@, now).status);
                    assert(!needs_restart(reg@[i as int], *tracker, snap@, now));
                }
            }
        } else {
            proof {
                assert(!needs_restart(reg@[i as int], *tracker, snap@, now));
            }
        }
        proof {
            let sub1 = reg@.subrange(0, i + 1);
            assert(sub1.drop_last() =~= reg@.subrange(0, i as int));
            assert(sub1.last() == reg@[i as int]);
            assert(seq_views(out@) =~= spec_tick(reg@.subrange(0, i + 1), *tracker, snap@, now));
        }
        i = i + 1;
    }
    proof {
        assert(reg@.subrange(0, n as int) =~= reg@);
    }
    out
}

/// A service whose definition wants a restart is in the tick's list.
proof fn lemma_tick_contains_needy(
    v: Seq<ServiceConfigV>,
    t: ProcessTracker,
    snap: Seq<ProcEntry>,
    now: u64,
    i: int,
)
    requires
        0 <= i < v.len(),
        needs_restart(v[i], t, snap, now),
    ensures
        spec_tick(v, t, snap, now).contains(v[i].name),
    decreases v.len(),
{
    let rest = spec_tick(v.drop_last(), t, snap, now);
    if i == v.len() - 1 {
        let tick = rest.push(v.last().name);
        assert(tick[tick.len() - 1] == v[i].name);
        assert(tick.contains(v[i].name));
    } else {
        assert(v.drop_last()[i] == v[i]);
        lemma_tick_contains_needy(v.drop_last(), t, snap, now, i);
        let k = choose|k: int| 0 <= k < rest.len() && rest[k] == v[i].name;
        if needs_restart(v.last(), t, snap, now) {
            assert(rest.push(v.last().name)[k] == v[i].name);
        }
    }
}

/// Law: toggling auto-restart on for a service that does not resolve as
/// running puts that service into the monitor's next tick plan, so the
/// next tick (within one interval) attempts its restart.
pub proof fn lemma_toggle_then_tick(
    v_old: Seq<ServiceConfigV>,
    v_new: Seq<ServiceConfigV>,
    name: Seq<char>,
    t: ProcessTracker,
    snap: Seq<ProcEntry>,
    now: u64,
)
    requires
        unique_names(v_old),
        has_service(v_old, name),
        v_new == v_old.update(
            service_index(v_old, name),
            ServiceConfigV { auto_restart: true, ..spec_service(v_old, name) },
        ),
        spec_resolve(
            ServiceConfigV { auto_restart: true, ..spec_service(v_old, name) },
            t.record_of(name),
            snap,
            now,
        ).status != RunState::Running,
    ensures
        spec_tick(v_new, t, snap, now).contains(name),
{
    let idx = service_index(v_old, name);
    assert(0 <= idx < v_old.len() && v_old[idx].name == name);
    assert(spec_service(v_old, name) == v_old[idx]);
    assert(v_new[idx] == ServiceConfigV { auto_restart: true, ..spec_service(v_old, name) });
    assert(v_new[idx].name == name);
    assert(needs_restart(v_new[idx], t, snap, now));
    lemma_tick_contains_needy(v_new, t, snap, now, idx);
}

} // verus!
