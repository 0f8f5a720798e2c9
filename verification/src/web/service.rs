//! The backends of HTTP routes, and what a failure to reach them is answered
//! with.

use crate::service::balancer::{chosen, ConnectionError, LoadBalancer};
use crate::service::config::{BackendDefinition, ServiceConfigFields};
use vstd::prelude::*;

verus! {

/// The backends that the requests of a rule are forwarded to. Rules that name
/// the same service share it, and so share the cursor of its round robin.
#[derive(Debug)]
pub struct HttpService {
    pub load_balancer: LoadBalancer,
}

/// Why a request could not be forwarded.
#[derive(Debug, Clone, Copy, PartialEq, Eq, Structural)]
pub enum ForwardError {
    /// No connection to a backend.
    Connection(ConnectionError),
    /// The backend did not complete the HTTP handshake.
    Handshake,
    /// The backend took too long.
    Timeout,
    /// Anything else.
    Unknown,
}

/// The status that a request is answered with where forwarding it failed:
/// 502 where the backend could not be dialled or did not shake hands, 504
/// where it took too long, 500 otherwise.
pub open spec fn failure_status(error: ForwardError) -> u16 {
    match error {
        ForwardError::Connection(ConnectionError::IoError) => 502,
        ForwardError::Connection(ConnectionError::BackendNotFound) => 500,
        ForwardError::Handshake => 502,
        ForwardError::Timeout => 504,
        ForwardError::Unknown => 500,
    }
}

impl HttpService {
    /// The service over the configured backends, with the round robin at the
    /// first of them.
    pub fn new(config: ServiceConfigFields) -> (r: HttpService)
        ensures
            r.load_balancer.backends() == config.backends@,
            r.load_balancer.algorithm() == config.load_balancing_algorithm,
            r.load_balancer.cursor() == 0,
    {
        HttpService {
            load_balancer: LoadBalancer::new(config.backends, config.load_balancing_algorithm),
        }
    }

    /// The backend to send the next request to, as the balancer chooses it.
    pub fn next_backend(&mut self, draw: u64) -> (r: Result<BackendDefinition, ConnectionError>)
        ensures
            chosen(old(self).load_balancer, draw, r, final(self).load_balancer),
    {
        self.load_balancer.next(draw)
    }
}

impl ForwardError {
    /// The status to answer the request with.
    pub fn status(&self) -> (r: u16)
        ensures
            r == failure_status(*self),
    {
        match self {
            ForwardError::Connection(ConnectionError::IoError) => 502,
            ForwardError::Connection(ConnectionError::BackendNotFound) => 500,
            ForwardError::Handshake => 502,
            ForwardError::Timeout => 504,
            ForwardError::Unknown => 500,
        }
    }
}

} // verus!
