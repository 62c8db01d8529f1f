use vstd::prelude::*;

verus! {

/// Why a request could not be dispatched or forwarded.
///
/// Every failure is scoped to the request that met it; none of them leaves
/// the balancer in a state that affects later requests.
#[derive(Debug)]
pub enum LoadBalancerError {
    /// The worker's URL, with the request's path appended, has no host or
    /// no port, or is no URL at all.
    InvalidAddress,
    /// The registry was empty when a worker had to be selected.
    NoAvailableWorkers,
    /// A lower-level failure while talking to the worker. The text is the
    /// cause, kept for diagnostics and never meant for the client.
    UnexpectedError(String),
}

impl LoadBalancerError {
    /// The cause carried by an `UnexpectedError`, as a sequence of characters.
    pub open spec fn cause(self) -> Seq<char> {
        match self {
            LoadBalancerError::UnexpectedError(cause) => cause@,
            _ => Seq::empty(),
        }
    }

    /// The text shown for this error. It names the kind of failure only;
    /// the cause of an `UnexpectedError` is not part of it.
    pub open spec fn message_text(self) -> Seq<char> {
        match self {
            LoadBalancerError::InvalidAddress => "Failed to make connection to this Address"@,
            LoadBalancerError::NoAvailableWorkers => "Found no workers"@,
            LoadBalancerError::UnexpectedError(_) => "Unexpected error"@,
        }
    }

    /// Renders the error for a log line.
    pub fn message(&self) -> (text: String)
        ensures
            text@ == self.message_text(),
    {
        match self {
            LoadBalancerError::InvalidAddress => "Failed to make connection to this Address".to_owned(),
            LoadBalancerError::NoAvailableWorkers => "Found no workers".to_owned(),
            LoadBalancerError::UnexpectedError(_) => "Unexpected error".to_owned(),
        }
    }
}

} // verus!
