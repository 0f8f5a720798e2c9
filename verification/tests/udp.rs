use gateway::service::balancer::ConnectionError;
use gateway::service::config::{
    BackendDefinition, IpAddress, LoadBalancingAlgorithm, ServiceConfigFields, SocketAddress,
};
use gateway::service::UdpService;
use gateway::stream::udp::{
    ClientTable, DatagramAction, UdpConnection, UdpConnectionBuilder, UdpServer,
    DEFAULT_BUFFER_SIZE, DEFAULT_TIME_TO_LIVE,
};
use gateway::stream::UdpFields;

const SECOND: u128 = 1_000_000_000;

fn addr(last: u32, port: u16) -> SocketAddress {
    SocketAddress {
        ip: IpAddress::V4(0x0a00_0000 + last),
        port,
    }
}

fn service(n: u16) -> UdpService {
    UdpService::new(ServiceConfigFields {
        backends: (0..n)
            .map(|i| BackendDefinition {
                port: 9000 + i,
                ip: IpAddress::V4(0x7f00_0001),
            })
            .collect(),
        load_balancing_algorithm: LoadBalancingAlgorithm::RoundRobin,
    })
}

fn upstream(i: u16) -> SocketAddress {
    SocketAddress {
        ip: IpAddress::V4(0x7f00_0001),
        port: 9000 + i,
    }
}

fn server(ttl: Option<u128>, backends: u16) -> UdpServer {
    UdpServer::new(
        UdpFields {
            port: 5300,
            name: "dns".to_owned(),
            service: "resolvers".to_owned(),
            biderectional_connection_ttl: ttl,
        },
        service(backends),
    )
}

#[test]
fn sizes_and_defaults() {
    assert_eq!(DEFAULT_BUFFER_SIZE, 8 * 1024);
    assert_eq!(DEFAULT_TIME_TO_LIVE, 10 * SECOND);
    assert_eq!(server(None, 1).biderectional_connection_ttl, 10 * SECOND);
    assert_eq!(server(Some(2 * SECOND), 1).biderectional_connection_ttl, 2 * SECOND);
    assert_eq!(server(None, 1).port, 5300);
}

#[test]
fn a_builder_makes_an_unserved_connection() {
    let mut builder = UdpConnectionBuilder::new(addr(1, 4000), upstream(0));
    assert_eq!(builder.time_to_live, 10 * SECOND);
    builder.time_to_live(3 * SECOND);
    let connection = builder.build(77);

    assert_eq!(
        connection,
        UdpConnection {
            client: addr(1, 4000),
            upstream_address: upstream(0),
            is_serving: false,
            last_activity: 77,
            time_to_live: 3 * SECOND,
        }
    );
}

#[test]
fn staleness_is_idle_time_over_time_to_live() {
    let mut builder = UdpConnectionBuilder::new(addr(1, 4000), upstream(0));
    builder.time_to_live(2 * SECOND);
    let connection = builder.build(10 * SECOND);

    assert!(!connection.is_stale(10 * SECOND));
    assert!(!connection.is_stale(12 * SECOND));
    assert!(connection.is_stale(12 * SECOND + 1));
    assert!(connection.is_stale(13 * SECOND));
    // A clock that reads less than before has let no time pass.
    assert!(!connection.is_stale(0));
}

#[test]
fn datagrams_in_either_direction_are_activity() {
    let mut connection = UdpConnectionBuilder::new(addr(1, 4000), upstream(0)).build(0);

    assert_eq!(connection.relay_client_message(5 * SECOND), upstream(0));
    assert_eq!(connection.last_activity, 5 * SECOND);

    assert_eq!(
        connection.relay_upstream_message(upstream(0), 8 * SECOND),
        Some(addr(1, 4000))
    );
    assert_eq!(connection.last_activity, 8 * SECOND);

    // From anyone but the backend: dropped, and no activity.
    assert_eq!(connection.relay_upstream_message(upstream(1), 9 * SECOND), None);
    assert_eq!(connection.relay_upstream_message(addr(1, 4000), 9 * SECOND), None);
    assert_eq!(connection.last_activity, 8 * SECOND);
}

#[test]
fn serving_starts_once() {
    let mut connection = UdpConnectionBuilder::new(addr(1, 4000), upstream(0)).build(0);

    assert!(!connection.close());
    assert!(connection.serve_bidirectional());
    assert!(connection.is_serving);
    assert!(!connection.serve_bidirectional());
    assert!(connection.is_serving);
    assert!(connection.close());
}

#[test]
fn one_connection_per_client() {
    let mut table = ClientTable::new();
    assert_eq!(table.len(), 0);
    assert_eq!(table.find(addr(1, 4000)), None);

    assert_eq!(
        table.register(addr(1, 4000), upstream(0), 2 * SECOND, 100),
        DatagramAction::Open { upstream: upstream(0) }
    );
    assert_eq!(
        table.register(addr(2, 4000), upstream(1), 2 * SECOND, 200),
        DatagramAction::Open { upstream: upstream(1) }
    );
    // The same address from another port is another client.
    assert_eq!(
        table.register(addr(1, 4001), upstream(0), 2 * SECOND, 300),
        DatagramAction::Open { upstream: upstream(0) }
    );
    assert_eq!(table.len(), 3);

    // A known client keeps its backend whatever is offered.
    assert_eq!(
        table.register(addr(1, 4000), upstream(1), 9 * SECOND, 400),
        DatagramAction::Relay { upstream: upstream(0) }
    );
    assert_eq!(table.len(), 3);
    assert_eq!(table.find(addr(1, 4000)), Some(0));
    assert_eq!(table.find(addr(2, 4000)), Some(1));
    assert_eq!(table.find(addr(1, 4001)), Some(2));
    assert_eq!(
        table.get(0),
        UdpConnection {
            client: addr(1, 4000),
            upstream_address: upstream(0),
            is_serving: true,
            last_activity: 400,
            time_to_live: 2 * SECOND,
        }
    );
    assert_eq!(table.get(1).last_activity, 200);
}

#[test]
fn replies_count_only_from_the_backend() {
    let mut table = ClientTable::new();
    table.register(addr(1, 4000), upstream(0), 2 * SECOND, 100);

    assert_eq!(
        table.register_reply(addr(1, 4000), upstream(0), 500),
        Some(addr(1, 4000))
    );
    assert_eq!(table.get(0).last_activity, 500);

    assert_eq!(table.register_reply(addr(1, 4000), upstream(1), 900), None);
    assert_eq!(table.register_reply(addr(9, 4000), upstream(0), 900), None);
    assert_eq!(table.get(0).last_activity, 500);
    assert_eq!(table.len(), 1);
}

#[test]
fn the_reaper_removes_what_is_stale() {
    let mut table = ClientTable::new();
    table.register(addr(1, 4000), upstream(0), 2 * SECOND, 0);
    table.register(addr(2, 4000), upstream(0), 5 * SECOND, 0);
    table.register(addr(3, 4000), upstream(0), 2 * SECOND, SECOND);
    table.register(addr(4, 4000), upstream(0), 1, 0);

    // At the time to live exactly, nothing but the shortest has expired.
    let removed = table.reap(2 * SECOND);
    assert_eq!(removed.len(), 1);
    assert_eq!(removed[0].client, addr(4, 4000));
    assert_eq!(table.len(), 3);

    let removed = table.reap(2 * SECOND + 1);
    assert_eq!(removed.len(), 1);
    assert_eq!(removed[0].client, addr(1, 4000));
    assert!(removed[0].close());
    assert_eq!(table.len(), 2);
    assert_eq!(table.get(0).client, addr(2, 4000));
    assert_eq!(table.get(1).client, addr(3, 4000));

    assert_eq!(table.reap(3 * SECOND).len(), 0);
    let removed = table.reap(6 * SECOND);
    assert_eq!(removed.len(), 2);
    assert_eq!(removed[0].client, addr(2, 4000));
    assert_eq!(removed[1].client, addr(3, 4000));
    assert_eq!(table.len(), 0);
    assert_eq!(table.reap(7 * SECOND).len(), 0);
}

#[test]
fn virtual_connection_lifetime() {
    let mut server = server(Some(2 * SECOND), 2);
    let mut table = ClientTable::new();
    let client = addr(1, 4000);

    // The client sends one datagram.
    assert_eq!(
        server.receive(&mut table, client, SECOND, 0),
        Ok(DatagramAction::Open { upstream: upstream(0) })
    );
    // The backend replies.
    assert_eq!(
        table.register_reply(client, upstream(0), SECOND + 1000),
        Some(client)
    );
    // Reaper ticks while the connection is fresh.
    assert_eq!(table.reap(2 * SECOND).len(), 0);
    assert_eq!(table.reap(3 * SECOND).len(), 0);
    // No traffic for three seconds.
    let removed = table.reap(4 * SECOND + 1000);
    assert_eq!(removed.len(), 1);
    assert_eq!(removed[0].client, client);
    assert_eq!(table.find(client), None);
    // The next datagram of the client opens a connection again.
    assert_eq!(
        server.receive(&mut table, client, 5 * SECOND, 0),
        Ok(DatagramAction::Open { upstream: upstream(1) })
    );
    assert_eq!(table.get(0).last_activity, 5 * SECOND);
}

#[test]
fn every_datagram_consults_the_service() {
    let mut server = server(None, 3);
    let mut table = ClientTable::new();

    assert_eq!(
        server.receive(&mut table, addr(1, 1), 0, 0),
        Ok(DatagramAction::Open { upstream: upstream(0) })
    );
    // The known client stays with its backend, and the turn passes.
    assert_eq!(
        server.receive(&mut table, addr(1, 1), 1, 0),
        Ok(DatagramAction::Relay { upstream: upstream(0) })
    );
    assert_eq!(
        server.receive(&mut table, addr(2, 1), 2, 0),
        Ok(DatagramAction::Open { upstream: upstream(2) })
    );
    assert_eq!(table.get(0).time_to_live, DEFAULT_TIME_TO_LIVE);
}

#[test]
fn a_service_without_backends_relays_nothing() {
    let mut server = server(None, 0);
    let mut table = ClientTable::new();

    assert_eq!(
        server.receive(&mut table, addr(1, 1), 0, 0),
        Err(ConnectionError::BackendNotFound)
    );
    assert_eq!(table.len(), 0);
}
