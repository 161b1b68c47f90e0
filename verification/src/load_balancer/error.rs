//! Error kinds of the load balancer.

use vstd::prelude::*;

verus! {

/// Errors that can occur during load balancing operations.
#[derive(Debug)]
pub enum LoadBalancingError {
    /// No agents available for load balancing.
    NoAgentsAvailable,
    /// Agent not found in the load balancer registry.
    AgentNotFound(String),
    /// Invalid configuration provided.
    InvalidConfig(String),
    /// Metrics collection failed.
    MetricsError(String),
    /// Distributed coordination error.
    CoordinationError(String),
    /// Prediction error.
    PredictionError(String),
    /// Adaptive algorithm error.
    AdaptiveError(String),
    /// I/O or system error, described by its message.
    SystemError(String),
    /// Other errors wrapped as strings.
    Other(String),
}

/// The text of an error: a fixed description, followed by the carried
/// message where there is one.
pub open spec fn error_text(e: LoadBalancingError) -> Seq<char> {
    match e {
        LoadBalancingError::NoAgentsAvailable => "No agents available for load balancing"@,
        LoadBalancingError::AgentNotFound(m) => "Agent '"@ + m@ + "' not found"@,
        LoadBalancingError::InvalidConfig(m) => "Invalid configuration: "@ + m@,
        LoadBalancingError::MetricsError(m) => "Failed to collect metrics: "@ + m@,
        LoadBalancingError::CoordinationError(m) => "Distributed coordination error: "@ + m@,
        LoadBalancingError::PredictionError(m) => "Prediction error: "@ + m@,
        LoadBalancingError::AdaptiveError(m) => "Adaptive algorithm error: "@ + m@,
        LoadBalancingError::SystemError(m) => "System error: "@ + m@,
        LoadBalancingError::Other(m) => m@,
    }
}

fn prefixed(prefix: &str, m: &String, suffix: &str) -> (r: String)
    ensures
        r@ == prefix@ + m@ + suffix@,
{
    let mut r = String::from_str(prefix);
    r.append(m.as_str());
    r.append(suffix);
    r
}

impl LoadBalancingError {
    /// The error's text.
    pub fn message(&self) -> (r: String)
        ensures
            r@ == error_text(*self),
    {
        proof {
            reveal_strlit("");
            reveal_strlit("No agents available for load balancing");
            reveal_strlit("Agent '");
            reveal_strlit("' not found");
            reveal_strlit("Invalid configuration: ");
            reveal_strlit("Failed to collect metrics: ");
            reveal_strlit("Distributed coordination error: ");
            reveal_strlit("Prediction error: ");
            reveal_strlit("Adaptive algorithm error: ");
            reveal_strlit("System error: ");
        }
        let r = match self {
            LoadBalancingError::NoAgentsAvailable => String::from_str("No agents available for load balancing"),
            LoadBalancingError::AgentNotFound(m) => prefixed("Agent '", m, "' not found"),
            LoadBalancingError::InvalidConfig(m) => prefixed("Invalid configuration: ", m, ""),
            LoadBalancingError::MetricsError(m) => prefixed("Failed to collect metrics: ", m, ""),
            LoadBalancingError::CoordinationError(m) => prefixed("Distributed coordination error: ", m, ""),
            LoadBalancingError::PredictionError(m) => prefixed("Prediction error: ", m, ""),
            LoadBalancingError::AdaptiveError(m) => prefixed("Adaptive algorithm error: ", m, ""),
            LoadBalancingError::SystemError(m) => prefixed("System error: ", m, ""),
            LoadBalancingError::Other(m) => m.clone(),
        };
        proof {
            assert(forall|x: Seq<char>| x + ""@ =~= x);
        }
        r
    }

    /// Creates a coordination error carrying `msg`.
    pub fn coordination(msg: &str) -> (r: Self)
        ensures
            r matches LoadBalancingError::CoordinationError(m) && m@ == msg@,
    {
        LoadBalancingError::CoordinationError(String::from_str(msg))
    }

    /// Creates a prediction error carrying `msg`.
    pub fn prediction(msg: &str) -> (r: Self)
        ensures
            r matches LoadBalancingError::PredictionError(m) && m@ == msg@,
    {
        LoadBalancingError::PredictionError(String::from_str(msg))
    }

    /// Creates an adaptive-algorithm error carrying `msg`.
    pub fn adaptive(msg: &str) -> (r: Self)
        ensures
            r matches LoadBalancingError::AdaptiveError(m) && m@ == msg@,
    {
        LoadBalancingError::AdaptiveError(String::from_str(msg))
    }
}

} // verus!
