//! From the HTTP part of a configuration to the servers that run it.
//!
//! Names become positions: a rule's backend becomes the position of the
//! service of that name, and a route goes to the server of the name it gives.
//! A name that nothing bears, and a service without backends, refuse the
//! configuration.

use crate::service::config::ConfigError;
use crate::text::{find_name, strings};
use crate::web::route::{HttpRoute, HttpRule};
use crate::web::server::{HttpServer, HttpServerFields};
use crate::web::service::HttpService;
use crate::web::{HttpConfig, HttpRouteConfig, HttpRouteRuleConfig, HttpServiceConfig};
use vstd::prelude::*;

verus! {

/// The servers of a configuration and the services that their rules refer
/// to by position.
#[derive(Debug)]
pub struct HttpServerCluster {
    pub servers: Vec<HttpServer>,
    pub services: Vec<HttpService>,
}

/// The names of the configured servers, in order.
pub open spec fn server_names(servers: Seq<HttpServerFields>) -> Seq<Seq<char>> {
    Seq::new(servers.len(), |i: int| servers[i].name@)
}

/// The names of the configured services, in order.
pub open spec fn service_names(services: Seq<HttpServiceConfig>) -> Seq<Seq<char>> {
    Seq::new(services.len(), |i: int| services[i].name@)
}

/// What is wrong with a route: it names a server that is not there, or one
/// of its rules names a service that is not there.
pub open spec fn route_fault(
    route: HttpRouteConfig,
    servers: Seq<Seq<char>>,
    services: Seq<Seq<char>>,
) -> Option<ConfigError> {
    if servers.index_of_first(route.server@) is None {
        Some(ConfigError::UnknownServer)
    } else if exists|k: int|
        0 <= k < route.rules@.len() && services.index_of_first(
            (#[trigger] route.rules@[k]).backend@,
        ) is None {
        Some(ConfigError::UnknownService)
    } else {
        None
    }
}

/// The fault of the first route at fault.
pub open spec fn first_route_fault(
    routes: Seq<HttpRouteConfig>,
    servers: Seq<Seq<char>>,
    services: Seq<Seq<char>>,
) -> Option<ConfigError>
    decreases routes.len(),
{
    if routes.len() == 0 {
        None
    } else if route_fault(routes[0], servers, services) is Some {
        route_fault(routes[0], servers, services)
    } else {
        first_route_fault(routes.drop_first(), servers, services)
    }
}

/// Why a configuration is refused, if it is: a service without backends
/// before anything else, then the first route at fault.
pub open spec fn config_fault(config: HttpConfig) -> Option<ConfigError> {
    if exists|j: int|
        0 <= j < config.services@.len() && (#[trigger] config.services@[j]).fields.backends@.len()
            == 0 {
        Some(ConfigError::EmptyBackends)
    } else {
        first_route_fault(
            config.routes@,
            server_names(config.servers@),
            service_names(config.services@),
        )
    }
}

/// Whether `route` is what the configuration `from` describes: the same
/// hosts, none where it names none, and rule for rule the same matchers with
/// the position of the service that the rule names.
pub open spec fn route_built(from: HttpRouteConfig, services: Seq<Seq<char>>, route: HttpRoute) -> bool {
    &&& route.hostnames@ == match from.hostnames {
        Some(hosts) => hosts@,
        None => Seq::empty(),
    }
    &&& route.rules@.len() == from.rules@.len()
    &&& forall|k: int|
        0 <= k < from.rules@.len() ==> (#[trigger] route.rules@[k]).matchers == from.rules@[k].matches
            && services.index_of_first(from.rules@[k].backend@) == Some(route.rules@[k].backend as int)
}

/// The positions, among the first `k` routes, of those that go to the server
/// at position `server`: the routes that name a server of which it is the
/// first of that name.
pub open spec fn assigned(
    routes: Seq<HttpRouteConfig>,
    servers: Seq<Seq<char>>,
    server: int,
    k: int,
) -> Seq<int>
    decreases k,
{
    if k <= 0 {
        Seq::empty()
    } else if servers.index_of_first(routes[k - 1].server@) == Some(server) {
        assigned(routes, servers, server, k - 1).push(k - 1)
    } else {
        assigned(routes, servers, server, k - 1)
    }
}

/// Whether `built` are the routes of the server at position `server`, as far
/// as the first `k` routes of the configuration go: one for each route
/// assigned to it, in the order of the configuration.
pub open spec fn routes_built(
    routes: Seq<HttpRouteConfig>,
    servers: Seq<Seq<char>>,
    services: Seq<Seq<char>>,
    server: int,
    k: int,
    built: Seq<HttpRoute>,
) -> bool {
    let positions = assigned(routes, servers, server, k);
    &&& built.len() == positions.len()
    &&& forall|x: int|
        0 <= x < built.len() ==> route_built(routes[positions[x]], services, #[trigger] built[x])
}

/// Whether `cluster` is what `config` describes: service for service the
/// configured backends with the round robin at its start, and server for
/// server the configured port and the routes that name the server.
pub open spec fn cluster_built(config: HttpConfig, cluster: HttpServerCluster) -> bool {
    &&& cluster.services@.len() == config.services@.len()
    &&& forall|j: int|
        0 <= j < config.services@.len() ==> {
            let balancer = (#[trigger] cluster.services@[j]).load_balancer;
            &&& balancer.backends() == config.services@[j].fields.backends@
            &&& balancer.algorithm() == config.services@[j].fields.load_balancing_algorithm
            &&& balancer.cursor() == 0
            &&& balancer.wf()
        }
    &&& cluster.servers@.len() == config.servers@.len()
    &&& forall|i: int|
        0 <= i < config.servers@.len() ==> (#[trigger] cluster.servers@[i]).port
            == config.servers@[i].port && routes_built(
            config.routes@,
            server_names(config.servers@),
            service_names(config.services@),
            i,
            config.routes@.len() as int,
            cluster.servers@[i].routes@,
        )
}

/// The first fault among routes is the fault of the route at `k` where no
/// route before it is at fault and it is.
pub proof fn lemma_first_route_fault_at(
    routes: Seq<HttpRouteConfig>,
    servers: Seq<Seq<char>>,
    services: Seq<Seq<char>>,
    k: int,
)
    requires
        0 <= k <= routes.len(),
        forall|x: int| 0 <= x < k ==> route_fault(#[trigger] routes[x], servers, services) is None,
        k < routes.len() ==> route_fault(routes[k], servers, services) is Some,
    ensures
        first_route_fault(routes, servers, services) == if k < routes.len() {
            route_fault(routes[k], servers, services)
        } else {
            None
        },
    decreases routes.len(),
{
    if routes.len() == 0 {
    } else if k == 0 {
    } else {
        let rest = routes.drop_first();
        assert(route_fault(routes[0], servers, services) is None);
        assert forall|x: int| 0 <= x < k - 1 implies route_fault(
            #[trigger] rest[x],
            servers,
            services,
        ) is None by {
            assert(rest[x] == routes[x + 1]);
        }
        if k < routes.len() {
            assert(rest[k - 1] == routes[k]);
        }
        lemma_first_route_fault_at(rest, servers, services, k - 1);
    }
}

impl HttpServerCluster {
    /// Builds the servers of a configuration.
    ///
    /// Every service needs a backend, every route a configured server and
    /// every rule a configured service; otherwise the configuration is refused
    /// with the first fault found. Of two servers with one name the first gets
    /// the routes.
    pub fn from_config(config: HttpConfig) -> (r: Result<HttpServerCluster, ConfigError>)
        ensures
            r matches Ok(cluster) ==> config_fault(config) is None && cluster_built(config, cluster),
            r matches Err(e) ==> config_fault(config) == Some(e),
    {
        broadcast use vstd::std_specs::vec::axiom_spec_into_iter;

        let ghost all_servers = config.servers@;
        let ghost all_services = config.services@;
        let ghost all_routes = config.routes@;
        let ghost server_texts = server_names(all_servers);
        let ghost service_texts = service_names(all_services);
        let HttpConfig { servers, services, routes } = config;

        let mut known_services: Vec<String> = Vec::new();
        let mut built_services: Vec<HttpService> = Vec::new();
        for entry in it: services.into_iter()
            invariant
                it.seq() == all_services,
                all_services == config.services@,
                service_texts == service_names(all_services),
                known_services@.len() == it.index(),
                built_services@.len() == it.index(),
                strings(known_services@) =~= service_texts.take(it.index()),
                forall|j: int|
                    0 <= j < it.index() ==> {
                        let balancer = (#[trigger] built_services@[j]).load_balancer;
                        &&& all_services[j].fields.backends@.len() > 0
                        &&& balancer.backends() == all_services[j].fields.backends@
                        &&& balancer.algorithm() == all_services[j].fields.load_balancing_algorithm
                        &&& balancer.cursor() == 0
                        &&& balancer.wf()
                    },
        {
            let HttpServiceConfig { name, fields } = entry;
            if fields.backends.len() == 0 {
                assert(all_services[it.index()].fields.backends@.len() == 0);
                return Err(ConfigError::EmptyBackends);
            }
            proof {
                assert(strings(known_services@.push(name)) =~= strings(known_services@).push(name@));
                assert(service_texts.take(it.index() + 1) =~= service_texts.take(it.index()).push(
                    name@,
                ));
            }
            known_services.push(name);
            built_services.push(HttpService::new(fields));
        }
        assert(service_texts.take(all_services.len() as int) =~= service_texts);

        let mut known_servers: Vec<String> = Vec::new();
        let mut built_servers: Vec<HttpServer> = Vec::new();
        for fields in it: servers.into_iter()
            invariant
                it.seq() == all_servers,
                server_texts == server_names(all_servers),
                known_servers@.len() == it.index(),
                built_servers@.len() == it.index(),
                strings(known_servers@) =~= server_texts.take(it.index()),
                forall|i: int|
                    0 <= i < it.index() ==> (#[trigger] built_servers@[i]).port == all_servers[i].port
                        && built_servers@[i].routes@.len() == 0,
        {
            let HttpServerFields { port, name } = fields;
            proof {
                assert(strings(known_servers@.push(name)) =~= strings(known_servers@).push(name@));
                assert(server_texts.take(it.index() + 1) =~= server_texts.take(it.index()).push(
                    name@,
                ));
            }
            known_servers.push(name);
            built_servers.push(HttpServer { port, routes: Vec::new() });
        }
        assert(server_texts.take(all_servers.len() as int) =~= server_texts);
        assert forall|j: int| 0 <= j < all_services.len() implies (
        #[trigger] all_services[j]).fields.backends@.len() > 0 by {
            assert(built_services@[j].load_balancer.wf());
        }

        for route in it: routes.into_iter()
            invariant
                it.seq() == all_routes,
                all_servers == config.servers@,
                all_services == config.services@,
                all_routes == config.routes@,
                server_texts == server_names(all_servers),
                service_texts == service_names(all_services),
                forall|j: int|
                    0 <= j < all_services.len() ==> (#[trigger] all_services[j]).fields.backends@.len()
                        > 0,
                strings(known_servers@) == server_texts,
                strings(known_services@) == service_texts,
                built_servers@.len() == all_servers.len(),
                forall|x: int|
                    0 <= x < it.index() ==> route_fault(
                        #[trigger] all_routes[x],
                        server_texts,
                        service_texts,
                    ) is None,
                forall|i: int|
                    0 <= i < all_servers.len() ==> (#[trigger] built_servers@[i]).port
                        == all_servers[i].port && routes_built(
                        all_routes,
                        server_texts,
                        service_texts,
                        i,
                        it.index(),
                        built_servers@[i].routes@,
                    ),
        {
            let ghost k = it.index();
            let ghost from = route;
            assert(from == all_routes[k]);
            let HttpRouteConfig { name: _, hostnames, server, rules } = route;
            let at = match find_name(&known_servers, server.as_str()) {
                None => {
                    proof {
                        lemma_first_route_fault_at(all_routes, server_texts, service_texts, k);
                    }
                    return Err(ConfigError::UnknownServer);
                },
                Some(at) => at,
            };
            proof {
                server_texts.index_of_first_ensures(server@);
                assert(at < built_servers@.len());
            }
            let mut built_rules: Vec<HttpRule> = Vec::new();
            for rule in rules_it: rules.into_iter()
                invariant
                    rules_it.seq() == from.rules@,
                    from == all_routes[k],
                    0 <= k < all_routes.len(),
                    all_servers == config.servers@,
                    all_services == config.services@,
                    all_routes == config.routes@,
                    server_texts == server_names(all_servers),
                    service_texts == service_names(all_services),
                    forall|j: int|
                        0 <= j < all_services.len() ==> (
                        #[trigger] all_services[j]).fields.backends@.len() > 0,
                    strings(known_services@) == service_texts,
                    server_texts.index_of_first(from.server@) == Some(at as int),
                    forall|x: int|
                        0 <= x < k ==> route_fault(
                            #[trigger] all_routes[x],
                            server_texts,
                            service_texts,
                        ) is None,
                    built_rules@.len() == rules_it.index(),
                    forall|y: int|
                        0 <= y < rules_it.index() ==> (#[trigger] built_rules@[y]).matchers
                            == from.rules@[y].matches && service_texts.index_of_first(
                            from.rules@[y].backend@,
                        ) == Some(built_rules@[y].backend as int),
            {
                let ghost y = rules_it.index();
                let HttpRouteRuleConfig { matches, backend } = rule;
                let service = match find_name(&known_services, backend.as_str()) {
                    None => {
                        proof {
                            assert(service_texts.index_of_first(from.rules@[y].backend@) is None);
                            lemma_first_route_fault_at(all_routes, server_texts, service_texts, k);
                        }
                        return Err(ConfigError::UnknownService);
                    },
                    Some(service) => service,
                };
                built_rules.push(HttpRule::new(matches, service));
            }
            let hosts = match hostnames {
                Some(hosts) => hosts,
                None => Vec::new(),
            };
            let built = HttpRoute { hostnames: hosts, rules: built_rules };
            assert(route_built(from, service_texts, built));
            assert(route_fault(from, server_texts, service_texts) is None) by {
                assert forall|y: int| 0 <= y < from.rules@.len() implies service_texts.index_of_first(
                    (#[trigger] from.rules@[y]).backend@,
                ) is Some by {
                    assert(built_rules@[y].matchers == from.rules@[y].matches);
                }
            }
            let ghost before = built_servers@;
            built_servers[at].routes.push(built);
            proof {
                assert forall|i: int| 0 <= i < all_servers.len() implies (
                #[trigger] built_servers@[i]).port == all_servers[i].port && routes_built(
                    all_routes,
                    server_texts,
                    service_texts,
                    i,
                    k + 1,
                    built_servers@[i].routes@,
                ) by {
                    let old_positions = assigned(all_routes, server_texts, i, k);
                    if i == at as int {
                        assert(built_servers@[i].routes@ == before[i].routes@.push(built));
                        assert(assigned(all_routes, server_texts, i, k + 1) == old_positions.push(k));
                    } else {
                        assert(built_servers@[i] == before[i]);
                        assert(assigned(all_routes, server_texts, i, k + 1) == old_positions);
                    }
                }
            }
        }
        proof {
            lemma_first_route_fault_at(
                all_routes,
                server_texts,
                service_texts,
                all_routes.len() as int,
            );
        }
        Ok(HttpServerCluster { servers: built_servers, services: built_services })
    }
}

} // verus!
