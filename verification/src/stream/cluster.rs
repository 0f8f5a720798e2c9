//! From the stream part of a configuration to the listeners that run it.
//!
//! Each listener names a service. The service has to be there, has to be of
//! the listener's transport and has to have a backend; each listener then
//! gets a service of its own over the configured backends.

use crate::service::config::{
    BackendDefinition, ConfigError, ServiceConfigFields, StreamServiceConfig,
};
use crate::service::{config_fields, config_protocol, TcpService, UdpService};
use crate::stream::udp::DEFAULT_TIME_TO_LIVE;
use crate::stream::{StreamServer, StreamServerConfig, StreamServiceEntry, StreamingConfig};
use crate::text::{find_name, strings};
use vstd::prelude::*;

verus! {

/// The listeners of a configuration.
#[derive(Debug)]
pub struct StreamServerCluster {
    pub servers: Vec<StreamServer>,
}

/// The names of the configured services, in order.
pub open spec fn entry_names(services: Seq<StreamServiceEntry>) -> Seq<Seq<char>> {
    Seq::new(services.len(), |i: int| services[i].name@)
}

/// What is wrong with a listener: the service that it names is not there, or
/// is of the other transport.
pub open spec fn server_fault(server: StreamServerConfig, services: Seq<StreamServiceEntry>) -> Option<
    ConfigError,
> {
    match entry_names(services).index_of_first(server.service_name()) {
        None => Some(ConfigError::UnknownService),
        Some(at) => if config_protocol(services[at].config) != server.protocol() {
            Some(ConfigError::ProtocolMismatch)
        } else {
            None
        },
    }
}

/// The fault of the first listener at fault.
pub open spec fn first_server_fault(
    servers: Seq<StreamServerConfig>,
    services: Seq<StreamServiceEntry>,
) -> Option<ConfigError>
    decreases servers.len(),
{
    if servers.len() == 0 {
        None
    } else if server_fault(servers[0], services) is Some {
        server_fault(servers[0], services)
    } else {
        first_server_fault(servers.drop_first(), services)
    }
}

/// Why a configuration is refused, if it is: a service without backends
/// before anything else, then the first listener at fault.
pub open spec fn streaming_fault(config: StreamingConfig) -> Option<ConfigError> {
    if exists|j: int|
        0 <= j < config.services@.len() && config_fields(
            (#[trigger] config.services@[j]).config,
        ).backends@.len() == 0 {
        Some(ConfigError::EmptyBackends)
    } else {
        first_server_fault(config.servers@, config.services@)
    }
}

/// Whether `server` is the listener that `from` describes, over a service
/// of its own with the backends of the service that `from` names.
pub open spec fn server_built(
    from: StreamServerConfig,
    services: Seq<StreamServiceEntry>,
    server: StreamServer,
) -> bool {
    let at = entry_names(services).index_of_first(from.service_name());
    let fields = config_fields(services[at->0].config);
    &&& at is Some
    &&& match (from, server) {
        (StreamServerConfig::Tcp(config), StreamServer::Tcp(built)) => {
            &&& built.config == config
            &&& built.service.load_balancer.backends() == fields.backends@
            &&& built.service.load_balancer.algorithm() == fields.load_balancing_algorithm
            &&& built.service.load_balancer.cursor() == 0
            &&& built.service.load_balancer.wf()
        },
        (StreamServerConfig::Udp(config), StreamServer::Udp(built)) => {
            &&& built.port == config.port
            &&& built.biderectional_connection_ttl == match config.biderectional_connection_ttl {
                Some(ttl) => ttl,
                None => DEFAULT_TIME_TO_LIVE,
            }
            &&& built.service.load_balancer.backends() == fields.backends@
            &&& built.service.load_balancer.algorithm() == fields.load_balancing_algorithm
            &&& built.service.load_balancer.cursor() == 0
            &&& built.service.load_balancer.wf()
        },
        _ => false,
    }
}

/// The first fault among listeners is the fault of the listener at `k`
/// where no listener before it is at fault and it is.
pub proof fn lemma_first_server_fault_at(
    servers: Seq<StreamServerConfig>,
    services: Seq<StreamServiceEntry>,
    k: int,
)
    requires
        0 <= k <= servers.len(),
        forall|x: int| 0 <= x < k ==> server_fault(#[trigger] servers[x], services) is None,
        k < servers.len() ==> server_fault(servers[k], services) is Some,
    ensures
        first_server_fault(servers, services) == if k < servers.len() {
            server_fault(servers[k], services)
        } else {
            None
        },
    decreases servers.len(),
{
    if servers.len() == 0 {
    } else if k == 0 {
    } else {
        let rest = servers.drop_first();
        assert(server_fault(servers[0], services) is None);
        assert forall|x: int| 0 <= x < k - 1 implies server_fault(#[trigger] rest[x], services)
            is None by {
            assert(rest[x] == servers[x + 1]);
        }
        if k < servers.len() {
            assert(rest[k - 1] == servers[k]);
        }
        lemma_first_server_fault_at(rest, services, k - 1);
    }
}

/// A copy of the backends and the algorithm of a service.
pub fn copy_fields(fields: &ServiceConfigFields) -> (r: ServiceConfigFields)
    ensures
        r.backends@ == fields.backends@,
        r.load_balancing_algorithm == fields.load_balancing_algorithm,
{
    let mut backends: Vec<BackendDefinition> = Vec::new();
    let n = fields.backends.len();
    let mut i: usize = 0;
    while i < n
        invariant
            i <= n,
            n == fields.backends@.len(),
            backends@ =~= fields.backends@.take(i as int),
        decreases n - i,
    {
        backends.push(fields.backends[i]);
        i = i + 1;
    }
    assert(fields.backends@.take(n as int) =~= fields.backends@);
    ServiceConfigFields { backends, load_balancing_algorithm: fields.load_balancing_algorithm }
}

impl StreamServerCluster {
    /// Builds the listeners of a configuration.
    ///
    /// Every service needs a backend, and every listener a configured
    /// service of its own transport; otherwise the configuration is refused
    /// with the first fault found.
    pub fn from_config(config: StreamingConfig) -> (r: Result<StreamServerCluster, ConfigError>)
        ensures
            r matches Ok(cluster) ==> {
                &&& streaming_fault(config) is None
                &&& cluster.servers@.len() == config.servers@.len()
                &&& forall|i: int|
                    0 <= i < config.servers@.len() ==> server_built(
                        config.servers@[i],
                        config.services@,
                        #[trigger] cluster.servers@[i],
                    )
            },
            r matches Err(e) ==> streaming_fault(config) == Some(e),
    {
        broadcast use vstd::std_specs::vec::axiom_spec_into_iter;

        let ghost all_servers = config.servers@;
        let ghost all_services = config.services@;
        let ghost names = entry_names(all_services);
        let StreamingConfig { servers, services } = config;

        let mut known: Vec<String> = Vec::new();
        let n = services.len();
        let mut j: usize = 0;
        while j < n
            invariant
                j <= n,
                n == services@.len(),
                services@ == all_services,
                all_services == config.services@,
                names == entry_names(all_services),
                strings(known@) =~= names.take(j as int),
                forall|x: int|
                    0 <= x < j ==> config_fields((#[trigger] all_services[x]).config).backends@.len()
                        > 0,
            decreases n - j,
        {
            let empty = match &services[j].config {
                StreamServiceConfig::Tcp(fields) => fields.backends.len() == 0,
                StreamServiceConfig::Udp(fields) => fields.backends.len() == 0,
            };
            if empty {
                return Err(ConfigError::EmptyBackends);
            }
            let name = services[j].name.clone();
            proof {
                assert(strings(known@.push(name)) =~= strings(known@).push(name@));
                assert(names.take(j + 1) =~= names.take(j as int).push(name@));
            }
            known.push(name);
            j = j + 1;
        }
        assert(names.take(n as int) =~= names);

        let mut built: Vec<StreamServer> = Vec::new();
        for server in it: servers.into_iter()
            invariant
                it.seq() == all_servers,
                all_servers == config.servers@,
                all_services == config.services@,
                services@ == all_services,
                names == entry_names(all_services),
                strings(known@) == names,
                forall|x: int|
                    0 <= x < all_services.len() ==> config_fields(
                        (#[trigger] all_services[x]).config,
                    ).backends@.len() > 0,
                built@.len() == it.index(),
                forall|x: int|
                    0 <= x < it.index() ==> server_fault(#[trigger] all_servers[x], all_services)
                        is None,
                forall|i: int|
                    0 <= i < it.index() ==> server_built(
                        all_servers[i],
                        all_services,
                        #[trigger] built@[i],
                    ),
        {
            let ghost k = it.index();
            let ghost from = server;
            assert(from == all_servers[k]);
            let found = match &server {
                StreamServerConfig::Tcp(fields) => find_name(&known, fields.service.as_str()),
                StreamServerConfig::Udp(fields) => find_name(&known, fields.service.as_str()),
            };
            let at = match found {
                None => {
                    proof {
                        lemma_first_server_fault_at(all_servers, all_services, k);
                    }
                    return Err(ConfigError::UnknownService);
                },
                Some(at) => at,
            };
            proof {
                names.index_of_first_ensures(from.service_name());
            }
            let listener = match (server, &services[at].config) {
                (StreamServerConfig::Tcp(config), StreamServiceConfig::Tcp(fields)) => {
                    StreamServer::tcp(config, TcpService::new(copy_fields(fields)))
                },
                (StreamServerConfig::Udp(config), StreamServiceConfig::Udp(fields)) => {
                    StreamServer::udp(config, UdpService::new(copy_fields(fields)))
                },
                _ => {
                    proof {
                        lemma_first_server_fault_at(all_servers, all_services, k);
                    }
                    return Err(ConfigError::ProtocolMismatch);
                },
            };
            assert(server_fault(from, all_services) is None);
            assert(server_built(from, all_services, listener));
            built.push(listener);
        }
        proof {
            lemma_first_server_fault_at(all_servers, all_services, all_servers.len() as int);
        }
        Ok(StreamServerCluster { servers: built })
    }
}

} // verus!
