//! The stream layer: TCP and UDP listeners that relay to a service.

pub mod cluster;
pub mod config;
pub mod tcp;
pub mod udp;

use crate::service::config::StreamServiceConfig;
use crate::service::{TcpService, UdpService};
use crate::stream::config::StreamProtocol;
use crate::stream::tcp::TcpServer;
use crate::stream::udp::{UdpServer, DEFAULT_TIME_TO_LIVE};
use vstd::prelude::*;

verus! {

/// A TCP listener of the configuration.
#[derive(Debug, Clone)]
pub struct TcpFields {
    pub port: u16,
    pub name: String,
    pub service: String,
}

/// A UDP listener of the configuration.
#[derive(Debug, Clone)]
pub struct UdpFields {
    pub port: u16,
    pub name: String,
    pub service: String,
    /// How long a virtual connection may be idle before it is closed, in
    /// nanoseconds: the time without a datagram from the client or from the
    /// backend.
    pub biderectional_connection_ttl: Option<u128>,
}

/// A stream listener of the configuration, by its transport.
#[derive(Debug, Clone)]
pub enum StreamServerConfig {
    Tcp(TcpFields),
    Udp(UdpFields),
}

/// A stream service of the configuration and its name.
#[derive(Debug, Clone)]
pub struct StreamServiceEntry {
    pub name: String,
    pub config: StreamServiceConfig,
}

/// The stream part of the configuration.
#[derive(Debug, Clone)]
pub struct StreamingConfig {
    pub servers: Vec<StreamServerConfig>,
    pub services: Vec<StreamServiceEntry>,
}

impl StreamServerConfig {
    /// Whether the listener is for TCP or for UDP.
    pub open spec fn protocol(&self) -> StreamProtocol {
        match self {
            StreamServerConfig::Tcp(_) => StreamProtocol::Tcp,
            StreamServerConfig::Udp(_) => StreamProtocol::Udp,
        }
    }

    /// The name of the service that the listener relays to.
    pub open spec fn service_name(&self) -> Seq<char> {
        match self {
            StreamServerConfig::Tcp(fields) => fields.service@,
            StreamServerConfig::Udp(fields) => fields.service@,
        }
    }

    /// Whether the listener is for TCP or for UDP.
    pub fn get_protocol(&self) -> (r: StreamProtocol)
        ensures
            r == self.protocol(),
    {
        match self {
            StreamServerConfig::Tcp(_) => StreamProtocol::Tcp,
            StreamServerConfig::Udp(_) => StreamProtocol::Udp,
        }
    }
}

/// A stream listener of either transport.
#[derive(Debug)]
pub enum StreamServer {
    Tcp(TcpServer),
    Udp(UdpServer),
}

impl StreamServer {
    /// Whether the listener is for TCP or for UDP.
    pub open spec fn protocol(&self) -> StreamProtocol {
        match self {
            StreamServer::Tcp(_) => StreamProtocol::Tcp,
            StreamServer::Udp(_) => StreamProtocol::Udp,
        }
    }

    /// A TCP listener as `config` describes it, over `service`.
    pub fn tcp(config: TcpFields, service: TcpService) -> (r: StreamServer)
        ensures
            r == StreamServer::Tcp(TcpServer { config, service }),
    {
        StreamServer::Tcp(TcpServer { config, service })
    }

    /// A UDP listener as `config` describes it, over `service`. Its
    /// connections live as long as the configuration says, or ten seconds.
    pub fn udp(config: UdpFields, service: UdpService) -> (r: StreamServer)
        ensures
            r == StreamServer::Udp(
                UdpServer {
                    port: config.port,
                    service,
                    biderectional_connection_ttl: match config.biderectional_connection_ttl {
                        Some(ttl) => ttl,
                        None => DEFAULT_TIME_TO_LIVE,
                    },
                },
            ),
    {
        StreamServer::Udp(UdpServer::new(config, service))
    }
}

} // verus!
