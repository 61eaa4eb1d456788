//! The health checker's decision logic. The single probe itself (an HTTP
//! GET or a raw TCP connect) is network work done outside the library; this
//! module decides which probe to make and what its outcome means, and
//! records the verdict into the tracker.

use vstd::prelude::*;
use crate::registry::{Registry, ServiceConfigV, has_service, spec_service};
use crate::tracker::ProcessTracker;
use crate::types::{Health, ServiceError};

verus! {

/// The single probe to make for a service: an HTTP GET against the
/// configured URL, a TCP connect to the configured port on the local host,
/// or nothing at all.
#[derive(Debug)]
pub enum Probe {
    Http(String),
    Tcp(u16),
    NoProbe,
}

/// Mathematical image of a [`Probe`].
#[verifier::ext_equal]
pub enum ProbeV {
    Http(Seq<char>),
    Tcp(u16),
    NoProbe,
}

impl View for Probe {
    type V = ProbeV;

    open spec fn view(&self) -> ProbeV {
        match self {
            Probe::Http(u) => ProbeV::Http(u@),
            Probe::Tcp(p) => ProbeV::Tcp(*p),
            Probe::NoProbe => ProbeV::NoProbe,
        }
    }
}

/// What came back from the probe: the HTTP status code (`None` for any
/// transport-level failure — the design does not distinguish them), whether
/// the TCP connect succeeded, or that no probe was made.
#[derive(Clone, Copy, PartialEq, Eq, Structural, Debug)]
pub enum ProbeOutcome {
    Http(Option<u16>),
    Tcp(bool),
    NotProbed,
}

/// Which probe a service's definition calls for: its health-check URL when
/// one is configured, else its port, else none.
pub open spec fn spec_probe(cfg: ServiceConfigV) -> ProbeV {
    match cfg.health_check_url {
        Some(u) => ProbeV::Http(u),
        None => match cfg.port {
            Some(p) => ProbeV::Tcp(p),
            None => ProbeV::NoProbe,
        },
    }
}

/// The verdict an outcome yields: a 2xx status or a successful connect is
/// healthy, any other response or failure is unhealthy, and no probe at all
/// leaves the verdict unknown.
pub open spec fn spec_verdict(o: ProbeOutcome) -> Health {
    match o {
        ProbeOutcome::Http(code) => match code {
            Some(c) => if 200 <= c < 300 {
                Health::Healthy
            } else {
                Health::Unhealthy
            },
            None => Health::Unhealthy,
        },
        ProbeOutcome::Tcp(ok) => if ok {
            Health::Healthy
        } else {
            Health::Unhealthy
        },
        ProbeOutcome::NotProbed => Health::Unknown,
    }
}

/// Decides which probe to make for `name`; fails with `NotFound` exactly
/// when `name` is not registered. `NoProbe` is returned exactly when the
/// service has neither a health-check URL nor a port, and the caller then
/// makes no network call at all.
pub fn health_probe_plan(reg: &Registry, name: &str) -> (r: Result<Probe, ServiceError>)
    requires
        reg.wf(),
    ensures
        match r {
            Ok(p) => has_service(reg@, name@) && p@ == spec_probe(spec_service(reg@, name@)),
            Err(e) => e == ServiceError::NotFound && !has_service(reg@, name@),
        },
{
    match reg.get(name) {
        Some(cfg) => match &cfg.health_check_url {
            Some(u) => Ok(Probe::Http(u.clone())),
            None => match cfg.port {
                Some(p) => Ok(Probe::Tcp(p)),
                None => Ok(Probe::NoProbe),
            },
        },
        None => Err(ServiceError::NotFound),
    }
}

/// Maps a probe outcome to its verdict.
pub fn health_verdict(o: ProbeOutcome) -> (h: Health)
    ensures
        h == spec_verdict(o),
{
    match o {
        ProbeOutcome::Http(code) => match code {
            Some(c) => if 200 <= c && c < 300 {
                Health::Healthy
            } else {
                Health::Unhealthy
            },
            None => Health::Unhealthy,
        },
        ProbeOutcome::Tcp(ok) => if ok {
            Health::Healthy
        } else {
            Health::Unhealthy
        },
        ProbeOutcome::NotProbed => Health::Unknown,
    }
}

/// Turns the probe's outcome into the verdict, records it into the tracker
/// (a no-op when `name` is untracked, as the tracker defines), and returns
/// it. Records of other services do not change.
pub fn finish_health_check(tracker: &mut ProcessTracker, name: &str, o: ProbeOutcome) -> (h: Health)
    requires
        old(tracker).wf(),
    ensures
        final(tracker).wf(),
        h == spec_verdict(o),
        final(tracker).restart_counts@ == old(tracker).restart_counts@,
        match old(tracker).record_of(name@) {
            Some(prev) => match final(tracker).record_of(name@) {
                Some(info) => info.pid == prev.pid && info.start_time == prev.start_time
                    && info.restart_count == prev.restart_count && info.health_status
                    == spec_verdict(o) && info.last_health_check is Some,
                None => false,
            },
            None => final(tracker).record_of(name@) is None,
        },
        forall|n: Seq<char>|
            n != name@ ==> #[trigger] final(tracker).record_of(n) == old(tracker).record_of(n),
{
    let h = health_verdict(o);
    tracker.update_health(name, h);
    h
}

} // verus!
