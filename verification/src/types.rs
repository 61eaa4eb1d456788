//! Shared value types: health verdicts, run states, and the error conditions
//! of the command surface.

use vstd::prelude::*;
use vstd::string::StringExecFns;

verus! {

/// Outcome of the most recent health probe of a service.
#[derive(Clone, Copy, PartialEq, Eq, Structural, Debug)]
pub enum Health {
    Healthy,
    Unhealthy,
    Unknown,
}

impl Health {
    /// The wire text of the verdict, as the command surface reports it.
    pub open spec fn spec_text(self) -> Seq<char> {
        match self {
            Health::Healthy => "healthy"@,
            Health::Unhealthy => "unhealthy"@,
            Health::Unknown => "unknown"@,
        }
    }

    /// Renders the verdict as its report text.
    pub fn text(&self) -> (r: String)
        ensures
            r@ == self.spec_text(),
    {
        match self {
            Health::Healthy => String::from_str("healthy"),
            Health::Unhealthy => String::from_str("unhealthy"),
            Health::Unknown => String::from_str("unknown"),
        }
    }
}

/// Point-in-time run state of a service, as the status resolver reports it.
#[derive(Clone, Copy, PartialEq, Eq, Structural, Debug)]
pub enum RunState {
    Running,
    Stopped,
    Error,
    Unknown,
    Starting,
    Stopping,
}

impl RunState {
    /// The wire text of the state, as the command surface reports it.
    pub open spec fn spec_text(self) -> Seq<char> {
        match self {
            RunState::Running => "running"@,
            RunState::Stopped => "stopped"@,
            RunState::Error => "error"@,
            RunState::Unknown => "unknown"@,
            RunState::Starting => "starting"@,
            RunState::Stopping => "stopping"@,
        }
    }

    /// Renders the state as its report text.
    pub fn text(&self) -> (r: String)
        ensures
            r@ == self.spec_text(),
    {
        match self {
            RunState::Running => String::from_str("running"),
            RunState::Stopped => String::from_str("stopped"),
            RunState::Error => String::from_str("error"),
            RunState::Unknown => String::from_str("unknown"),
            RunState::Starting => String::from_str("starting"),
            RunState::Stopping => String::from_str("stopping"),
        }
    }
}

/// Why an operation on the command surface was refused.
#[derive(Clone, Copy, PartialEq, Eq, Structural, Debug)]
pub enum ServiceError {
    /// The service name is not in the registry.
    NotFound,
    /// Dependency resolution ran into a cycle of service names.
    DependencyCycle,
}

} // verus!
