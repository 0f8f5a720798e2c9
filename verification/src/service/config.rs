//! What a service is configured with: its backends and how to choose among
//! them.

use vstd::prelude::*;

verus! {

/// Why a configuration is refused.
#[derive(Debug, Clone, Copy, PartialEq, Eq, Structural)]
pub enum ConfigError {
    /// A service has no backend.
    EmptyBackends,
    /// A server or a rule names a service that is not configured.
    UnknownService,
    /// A route names a server that is not configured.
    UnknownServer,
    /// A server and the service that it names differ in their transport.
    ProtocolMismatch,
}

/// How a service chooses the backend of the next connection.
#[derive(Debug, Clone, Copy, PartialEq, Eq, Structural)]
pub enum LoadBalancingAlgorithm {
    /// The backends in turn, in the order of the configuration.
    RoundRobin,
    /// Any backend, by a number drawn for the purpose.
    Random,
}

impl Default for LoadBalancingAlgorithm {
    fn default() -> (r: LoadBalancingAlgorithm)
        ensures
            r == LoadBalancingAlgorithm::RoundRobin,
    {
        LoadBalancingAlgorithm::RoundRobin
    }
}

/// An IP address, as the number that its bits write.
#[derive(Debug, Clone, Copy, PartialEq, Eq, Structural)]
pub enum IpAddress {
    V4(u32),
    V6(u128),
}

/// An address and a port: where a peer sends from, or where to send to.
#[derive(Debug, Clone, Copy, PartialEq, Eq, Structural)]
pub struct SocketAddress {
    pub ip: IpAddress,
    pub port: u16,
}

/// One upstream endpoint.
#[derive(Debug, Clone, Copy, PartialEq, Eq, Structural)]
pub struct BackendDefinition {
    pub port: u16,
    pub ip: IpAddress,
}

impl BackendDefinition {
    /// The address to reach the backend at.
    pub fn address(&self) -> (r: SocketAddress)
        ensures
            r == (SocketAddress { ip: self.ip, port: self.port }),
    {
        SocketAddress { ip: self.ip, port: self.port }
    }
}

/// The backends of a service and the way to choose among them.
#[derive(Debug, Clone)]
pub struct ServiceConfigFields {
    pub backends: Vec<BackendDefinition>,
    pub load_balancing_algorithm: LoadBalancingAlgorithm,
}

/// A stream service, by its transport.
#[derive(Debug, Clone)]
pub enum StreamServiceConfig {
    Tcp(ServiceConfigFields),
    Udp(ServiceConfigFields),
}

} // verus!
