//! Services: the backends behind a listener and the choice among them.

pub mod balancer;
pub mod config;

use crate::service::balancer::{ConnectionError, LoadBalancer};
use crate::service::config::{BackendDefinition, ServiceConfigFields, StreamServiceConfig};
use crate::stream::config::StreamProtocol;
use vstd::prelude::*;

verus! {

/// The backends that TCP connections are relayed to.
#[derive(Debug)]
pub struct TcpService {
    pub load_balancer: LoadBalancer,
}

/// The backends that UDP datagrams are relayed to.
#[derive(Debug)]
pub struct UdpService {
    pub load_balancer: LoadBalancer,
}

/// A stream service of either transport.
#[derive(Debug)]
pub enum Service {
    Tcp(TcpService),
    Udp(UdpService),
}

impl TcpService {
    /// The service over the configured backends, with the round robin at the
    /// first of them.
    pub fn new(config: ServiceConfigFields) -> (r: TcpService)
        ensures
            r.load_balancer.backends() == config.backends@,
            r.load_balancer.algorithm() == config.load_balancing_algorithm,
            r.load_balancer.cursor() == 0,
    {
        TcpService {
            load_balancer: LoadBalancer::new(config.backends, config.load_balancing_algorithm),
        }
    }

    /// The backend to dial for the next connection, as the balancer chooses
    /// it.
    pub fn next_backend(&mut self, draw: u64) -> (r: Result<BackendDefinition, ConnectionError>)
        ensures
            crate::service::balancer::chosen(old(self).load_balancer, draw, r, final(self).load_balancer),
    {
        self.load_balancer.next(draw)
    }
}

impl UdpService {
    /// The service over the configured backends, with the round robin at the
    /// first of them.
    pub fn new(config: ServiceConfigFields) -> (r: UdpService)
        ensures
            r.load_balancer.backends() == config.backends@,
            r.load_balancer.algorithm() == config.load_balancing_algorithm,
            r.load_balancer.cursor() == 0,
    {
        UdpService {
            load_balancer: LoadBalancer::new(config.backends, config.load_balancing_algorithm),
        }
    }

    /// The address to relay the datagrams of a new client to, as the
    /// balancer chooses it.
    pub fn get_address(&mut self, draw: u64) -> (r: Result<BackendDefinition, ConnectionError>)
        ensures
            crate::service::balancer::chosen(old(self).load_balancer, draw, r, final(self).load_balancer),
    {
        self.load_balancer.next(draw)
    }
}

impl Service {
    /// Whether the service is for TCP or for UDP.
    pub open spec fn protocol(&self) -> StreamProtocol {
        match self {
            Service::Tcp(_) => StreamProtocol::Tcp,
            Service::Udp(_) => StreamProtocol::Udp,
        }
    }

    /// The balancer of the service.
    pub open spec fn balancer(&self) -> LoadBalancer {
        match self {
            Service::Tcp(s) => s.load_balancer,
            Service::Udp(s) => s.load_balancer,
        }
    }

    /// Whether the service is for TCP or for UDP.
    pub fn get_protocol(&self) -> (r: StreamProtocol)
        ensures
            r == self.protocol(),
    {
        match self {
            Service::Tcp(_) => StreamProtocol::Tcp,
            Service::Udp(_) => StreamProtocol::Udp,
        }
    }

    /// The service that `config` describes: of the transport that it names,
    /// over the backends that it lists.
    pub fn new(config: StreamServiceConfig) -> (r: Service)
        ensures
            r.protocol() == config_protocol(config),
            r.balancer().backends() == config_fields(config).backends@,
            r.balancer().algorithm() == config_fields(config).load_balancing_algorithm,
            r.balancer().cursor() == 0,
    {
        match config {
            StreamServiceConfig::Tcp(config) => Service::Tcp(TcpService::new(config)),
            StreamServiceConfig::Udp(config) => Service::Udp(UdpService::new(config)),
        }
    }
}

/// The transport that a service configuration names.
pub open spec fn config_protocol(config: StreamServiceConfig) -> StreamProtocol {
    match config {
        StreamServiceConfig::Tcp(_) => StreamProtocol::Tcp,
        StreamServiceConfig::Udp(_) => StreamProtocol::Udp,
    }
}

/// The backends and the algorithm of a service configuration.
pub open spec fn config_fields(config: StreamServiceConfig) -> ServiceConfigFields {
    match config {
        StreamServiceConfig::Tcp(fields) => fields,
        StreamServiceConfig::Udp(fields) => fields,
    }
}

} // verus!
