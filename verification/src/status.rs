//! The status resolver: computes a point-in-time view of a service by
//! cross-referencing its definition, the tracker's record, and a snapshot of
//! the OS process table handed in as plain values. Includes the best-effort
//! heuristic that correlates a service to a live process by substring search
//! over command lines — intentionally approximate, a known limitation
//! rather than a correctness guarantee.

use vstd::prelude::*;
use vstd::string::StringExecFns;
use crate::registry::{Registry, ServiceConfig, ServiceConfigV, has_service, spec_service};
use crate::text::{is_substring, str_contains, dec_str_of, u16_to_string};
use crate::tracker::{ProcessInfo, ProcessTracker};
use crate::types::{Health, RunState, ServiceError};

verus! {

/// One live process, as observed in a snapshot of the OS process table.
/// CPU usage is carried in hundredths of a percent so that the library
/// holds only integers.
pub struct ProcEntry {
    pub pid: u32,
    /// The process's command line, arguments joined with spaces.
    pub cmd: String,
    pub cpu_centi_percent: u32,
    pub memory_mb: u64,
}

/// The correlation heuristic: a process belongs to a service when its
/// command line contains the service name, or the decimal text of the
/// service's port.
pub open spec fn entry_matches(e: ProcEntry, name: Seq<char>, port: Option<u16>) -> bool {
    is_substring(e.cmd@, name) || (match port {
        Some(p) => is_substring(e.cmd@, dec_str_of(p as nat)),
        None => false,
    })
}

/// Some entry of `snap` matches the heuristic.
pub open spec fn snapshot_has_match(snap: Seq<ProcEntry>, name: Seq<char>, port: Option<u16>) -> bool {
    exists|i: int| 0 <= i < snap.len() && entry_matches(snap[i], name, port)
}

/// `m` is the first index of `snap` matching the heuristic.
pub open spec fn is_first_match(snap: Seq<ProcEntry>, name: Seq<char>, port: Option<u16>, m: int) -> bool {
    &&& 0 <= m < snap.len()
    &&& entry_matches(snap[m], name, port)
    &&& forall|k: int| 0 <= k < m ==> !entry_matches(#[trigger] snap[k], name, port)
}

/// The first matching index (meaningful when a match exists).
pub open spec fn first_match_index(snap: Seq<ProcEntry>, name: Seq<char>, port: Option<u16>) -> int {
    choose|m: int| is_first_match(snap, name, port, m)
}

/// Some entry of `snap` carries `pid`.
pub open spec fn snapshot_has_pid(snap: Seq<ProcEntry>, pid: u32) -> bool {
    exists|i: int| 0 <= i < snap.len() && snap[i].pid == pid
}

/// `m` is the first index of `snap` carrying `pid`.
pub open spec fn is_first_pid(snap: Seq<ProcEntry>, pid: u32, m: int) -> bool {
    &&& 0 <= m < snap.len()
    &&& snap[m].pid == pid
    &&& forall|k: int| 0 <= k < m ==> (#[trigger] snap[k]).pid != pid
}

/// The first index carrying `pid` (meaningful when one exists).
pub open spec fn first_pid_index(snap: Seq<ProcEntry>, pid: u32) -> int {
    choose|m: int| is_first_pid(snap, pid, m)
}

/// Finds the first process whose command line matches the correlation
/// heuristic for `name` / `port`.
pub fn find_service_process(snap: &Vec<ProcEntry>, name: &str, port: Option<u16>) -> (r: Option<
    usize,
>)
    ensures
        match r {
            Some(i) => is_first_match(snap@, name@, port, i as int)
                && first_match_index(snap@, name@, port) == i,
            None => !snapshot_has_match(snap@, name@, port),
        },
{
    let port_text: Option<String> = match port {
        Some(p) => Some(u16_to_string(p)),
        None => None,
    };
    let n = snap.len();
    let mut i: usize = 0;
    while i < n
        invariant
            n == snap@.len(),
            i <= n,
            match port_text {
                Some(t) => port is Some && t@ == dec_str_of((match port {
                    Some(p) => p,
                    None => 0u16,
                }) as nat),
                None => port is None,
            },
            forall|k: int| 0 <= k < i ==> !entry_matches(#[trigger] snap@[k], name@, port),
        decreases n - i,
    {
        let by_name = str_contains(entry_cmd(snap, i), name);
        let matched = if by_name {
            true
        } else {
            match &port_text {
                Some(t) => str_contains(entry_cmd(snap, i), t.as_str()),
                None => false,
            }
        };
        if matched {
            proof {
                assert(entry_matches(snap@[i as int], name@, port));
                assert(is_first_match(snap@, name@, port, i as int));
            }
            return Some(i);
        }
        proof {
            assert(!entry_matches(snap@[i as int], name@, port));
        }
        i = i + 1;
    }
    None
}

/// The command line of entry `i`.
fn entry_cmd(snap: &Vec<ProcEntry>, i: usize) -> (r: &str)
    requires
        i < snap@.len(),
    ensures
        r@ == snap@[i as int].cmd@,
{
    snap[i].cmd.as_str()
}

/// Finds the first process with the given pid.
pub fn find_pid(snap: &Vec<ProcEntry>, pid: u32) -> (r: Option<usize>)
    ensures
        match r {
            Some(i) => is_first_pid(snap@, pid, i as int) && first_pid_index(snap@, pid) == i,
            None => !snapshot_has_pid(snap@, pid),
        },
{
    let n = snap.len();
    let mut i: usize = 0;
    while i < n
        invariant
            n == snap@.len(),
            i <= n,
            forall|k: int| 0 <= k < i ==> (#[trigger] snap@[k]).pid != pid,
        decreases n - i,
    {
        if snap[i].pid == pid {
            proof {
                assert(is_first_pid(snap@, pid, i as int));
            }
            return Some(i);
        }
        i = i + 1;
    }
    None
}

/// Point-in-time view of one service. Ephemeral: recomputed on every query,
/// never stored.
#[derive(Debug)]
pub struct ServiceStatus {
    pub name: String,
    pub status: RunState,
    pub pid: Option<u32>,
    pub port: Option<u16>,
    pub uptime: Option<u64>,
    pub health: Health,
    pub cpu_centi_percent: u32,
    pub memory_mb: u64,
    pub auto_restart_enabled: bool,
    pub restart_count: u32,
}

/// Mathematical image of a [`ServiceStatus`].
#[verifier::ext_equal]
pub struct ServiceStatusV {
    pub name: Seq<char>,
    pub status: RunState,
    pub pid: Option<u32>,
    pub port: Option<u16>,
    pub uptime: Option<u64>,
    pub health: Health,
    pub cpu_centi_percent: u32,
    pub memory_mb: u64,
    pub auto_restart_enabled: bool,
    pub restart_count: u32,
}

impl View for ServiceStatus {
    type V = ServiceStatusV;

    open spec fn view(&self) -> ServiceStatusV {
        ServiceStatusV {
            name: self.name@,
            status: self.status,
            pid: self.pid,
            port: self.port,
            uptime: self.uptime,
            health: self.health,
            cpu_centi_percent: self.cpu_centi_percent,
            memory_mb: self.memory_mb,
            auto_restart_enabled: self.auto_restart_enabled,
            restart_count: self.restart_count,
        }
    }
}

/// Seconds elapsed from `start` to `now`, 0 when the clock went backwards.
pub open spec fn uptime_since(now: u64, start: u64) -> u64 {
    if now >= start {
        (now - start) as u64
    } else {
        0
    }
}

/// What the status resolver reports for a service defined by `cfg`, given
/// the tracker record `rec` and the process-table snapshot `snap` taken at
/// time `now`: a tracked, still-live pid is believed directly; otherwise a
/// service with a port is sought by the correlation heuristic; otherwise the
/// service counts as stopped. Health and restart count come from the
/// tracker, defaulting to unknown and 0 when untracked; uptime only ever
/// from a tracked start time.
pub open spec fn spec_resolve(
    cfg: ServiceConfigV,
    rec: Option<ProcessInfo>,
    snap: Seq<ProcEntry>,
    now: u64,
) -> ServiceStatusV {
    let health = match rec {
        Some(r) => r.health_status,
        None => Health::Unknown,
    };
    let restart_count = match rec {
        Some(r) => r.restart_count,
        None => 0u32,
    };
    let uptime = match rec {
        Some(r) => Some(uptime_since(now, r.start_time)),
        None => None::<u64>,
    };
    let tracked_live = match rec {
        Some(r) => snapshot_has_pid(snap, r.pid),
        None => false,
    };
    if tracked_live {
        let r = match rec {
            Some(r) => r,
            None => ProcessInfo {
                pid: 0,
                start_time: 0,
                restart_count: 0,
                last_health_check: None,
                health_status: Health::Unknown,
            },
        };
        let e = snap[first_pid_index(snap, r.pid)];
        ServiceStatusV {
            name: cfg.name,
            status: RunState::Running,
            pid: Some(r.pid),
            port: cfg.port,
            uptime,
            health,
            cpu_centi_percent: e.cpu_centi_percent,
            memory_mb: e.memory_mb,
            auto_restart_enabled: cfg.auto_restart,
            restart_count,
        }
    } else if cfg.port is Some && snapshot_has_match(snap, cfg.name, cfg.port) {
        let e = snap[first_match_index(snap, cfg.name, cfg.port)];
        ServiceStatusV {
            name: cfg.name,
            status: RunState::Running,
            pid: Some(e.pid),
            port: cfg.port,
            uptime,
            health,
            cpu_centi_percent: e.cpu_centi_percent,
            memory_mb: e.memory_mb,
            auto_restart_enabled: cfg.auto_restart,
            restart_count,
        }
    } else {
        ServiceStatusV {
            name: cfg.name,
            status: RunState::Stopped,
            pid: None,
            port: cfg.port,
            uptime,
            health,
            cpu_centi_percent: 0,
            memory_mb: 0,
            auto_restart_enabled: cfg.auto_restart,
            restart_count,
        }
    }
}

/// Resolves the status of the service defined by `cfg`.
pub fn resolve_status(
    cfg: &ServiceConfig,
    rec: Option<ProcessInfo>,
    snap: &Vec<ProcEntry>,
    now: u64,
) -> (st: ServiceStatus)
    ensures
        st@ == spec_resolve(cfg@, rec, snap@, now),
{
    let name = cfg.name.clone();
    let port = cfg.port;
    let health = match rec {
        Some(r) => r.health_status,
        None => Health::Unknown,
    };
    let restart_count = match rec {
        Some(r) => r.restart_count,
        None => 0,
    };
    let uptime = match rec {
        Some(r) => Some(if now >= r.start_time {
            now - r.start_time
        } else {
            0
        }),
        None => None,
    };
    let live_idx: Option<usize> = match rec {
        Some(r) => find_pid(snap, r.pid),
        None => None,
    };
    match live_idx {
        Some(i) => {
            let pid = match rec {
                Some(r) => r.pid,
                None => 0,
            };
            ServiceStatus {
                name,
                status: RunState::Running,
                pid: Some(pid),
                port,
                uptime,
                health,
                cpu_centi_percent: snap[i].cpu_centi_percent,
                memory_mb: snap[i].memory_mb,
                auto_restart_enabled: cfg.auto_restart,
                restart_count,
            }
        },
        None => {
            let scan_idx: Option<usize> = match port {
                Some(_) => find_service_process(snap, cfg.name.as_str(), port),
                None => None,
            };
            match scan_idx {
                Some(i) => ServiceStatus {
                    name,
                    status: RunState::Running,
                    pid: Some(snap[i].pid),
                    port,
                    uptime,
                    health,
                    cpu_centi_percent: snap[i].cpu_centi_percent,
                    memory_mb: snap[i].memory_mb,
                    auto_restart_enabled: cfg.auto_restart,
                    restart_count,
                },
                None => ServiceStatus {
                    name,
                    status: RunState::Stopped,
                    pid: None,
                    port,
                    uptime,
                    health,
                    cpu_centi_percent: 0,
                    memory_mb: 0,
                    auto_restart_enabled: cfg.auto_restart,
                    restart_count,
                },
            }
        },
    }
}

/// Status query for one service: fails with `NotFound` exactly when the
/// name is not registered, and otherwise reports what the resolver computes
/// from the given snapshot.
pub fn get_service_status(
    reg: &Registry,
    tracker: &ProcessTracker,
    snap: &Vec<ProcEntry>,
    now: u64,
    name: &str,
) -> (r: Result<ServiceStatus, ServiceError>)
    requires
        reg.wf(),
        tracker.wf(),
    ensures
        match r {
            Ok(st) => has_service(reg@, name@) && st@ == spec_resolve(
                spec_service(reg@, name@),
                tracker.record_of(name@),
                snap@,
                now,
            ),
            Err(e) => e == ServiceError::NotFound && !has_service(reg@, name@),
        },
{
    match reg.get(name) {
        Some(cfg) => {
            let rec = tracker.get_process_info(name);
            Ok(resolve_status(cfg, rec, snap, now))
        },
        None => Err(ServiceError::NotFound),
    }
}

/// Status of every registered service, in registration order. Never fails
/// as a whole.
pub fn get_all_services_status(
    reg: &Registry,
    tracker: &ProcessTracker,
    snap: &Vec<ProcEntry>,
    now: u64,
) -> (r: Vec<ServiceStatus>)
    requires
        reg.wf(),
        tracker.wf(),
    ensures
        r@.len() == reg@.len(),
        forall|i: int|
            0 <= i < r@.len() ==> #[trigger] r@[i]@ == spec_resolve(
                reg@[i],
                tracker.record_of(reg@[i].name),
                snap@,
                now,
            ),
{
    let services = reg.list();
    let n = services.len();
    let mut out: Vec<ServiceStatus> = Vec::new();
    let mut i: usize = 0;
    while i < n
        invariant
            reg.wf(),
            tracker.wf(),
            n == services@.len(),
            n == reg@.len(),
            forall|k: int| 0 <= k < n ==> #[trigger] services@[k]@ == reg@[k],
            i <= n,
            out@.len() == i,
            forall|k: int|
                0 <= k < i ==> #[trigger] out@[k]@ == spec_resolve(
                    reg@[k],
                    tracker.record_of(reg@[k].name),
                    snap@,
                    now,
                ),
        decreases n - i,
    {
        let cfg = &services[i];
        let rec = tracker.get_process_info(cfg.name.as_str());
        let st = resolve_status(cfg, rec, snap, now);
        out.push(st);
        i = i + 1;
    }
    out
}

} // verus!
