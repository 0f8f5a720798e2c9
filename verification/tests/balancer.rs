use gateway::service::balancer::{ConnectionError, LoadBalancer};
use gateway::service::config::{
    BackendDefinition, IpAddress, LoadBalancingAlgorithm, ServiceConfigFields, SocketAddress,
    StreamServiceConfig,
};
use gateway::service::{Service, TcpService, UdpService};
use gateway::stream::config::{StreamConfig, StreamProtocol};

fn backend(n: u16) -> BackendDefinition {
    BackendDefinition {
        port: 8000 + n,
        ip: IpAddress::V4(0x7f00_0001),
    }
}

fn backends(n: u16) -> Vec<BackendDefinition> {
    (0..n).map(backend).collect()
}

#[test]
fn round_robin_goes_through_the_backends_in_order() {
    let mut balancer = LoadBalancer::new(backends(3), LoadBalancingAlgorithm::RoundRobin);

    assert_eq!(balancer.len(), 3);
    let picks: Vec<u16> = (0..7).map(|_| balancer.next(0).unwrap().port).collect();
    assert_eq!(picks, vec![8000, 8001, 8002, 8000, 8001, 8002, 8000]);
}

#[test]
fn round_robin_does_not_look_at_the_draw() {
    let mut balancer = LoadBalancer::new(backends(2), LoadBalancingAlgorithm::RoundRobin);

    assert_eq!(balancer.next(5).unwrap().port, 8000);
    assert_eq!(balancer.next(5).unwrap().port, 8001);
    assert_eq!(balancer.next(u64::MAX).unwrap().port, 8000);
}

#[test]
fn round_robin_is_fair() {
    for n in 1..6u16 {
        for k in 0..20usize {
            let mut balancer = LoadBalancer::new(backends(n), LoadBalancingAlgorithm::RoundRobin);
            let mut counts = vec![0usize; n as usize];
            let mut picks = Vec::new();
            for _ in 0..k {
                let port = balancer.next(0).unwrap().port;
                counts[(port - 8000) as usize] += 1;
                picks.push(port);
            }
            let floor = k / n as usize;
            let ceil = (k + n as usize - 1) / n as usize;
            for count in counts {
                assert!(floor <= count && count <= ceil);
            }
            for i in 0..k.saturating_sub(n as usize) {
                assert_eq!(picks[i], picks[i + n as usize]);
            }
        }
    }
}

#[test]
fn ten_selections_over_three_backends() {
    let mut balancer = LoadBalancer::new(backends(3), LoadBalancingAlgorithm::RoundRobin);
    let mut counts = [0; 3];
    for _ in 0..10 {
        counts[(balancer.next(0).unwrap().port - 8000) as usize] += 1;
    }
    assert_eq!(counts, [4, 3, 3]);
}

#[test]
fn random_takes_the_backend_that_the_draw_points_at() {
    let mut balancer = LoadBalancer::new(backends(3), LoadBalancingAlgorithm::Random);

    assert_eq!(balancer.next(0).unwrap().port, 8000);
    assert_eq!(balancer.next(0).unwrap().port, 8000);
    assert_eq!(balancer.next(1).unwrap().port, 8001);
    assert_eq!(balancer.next(2).unwrap().port, 8002);
    assert_eq!(balancer.next(3).unwrap().port, 8000);
    assert_eq!(balancer.next(100).unwrap().port, 8001);
    assert_eq!(balancer.next(u64::MAX).unwrap().port, 8000);
}

#[test]
fn no_backend_no_selection() {
    let mut balancer = LoadBalancer::new(Vec::new(), LoadBalancingAlgorithm::RoundRobin);
    assert_eq!(balancer.len(), 0);
    assert_eq!(balancer.next(0).unwrap_err(), ConnectionError::BackendNotFound);
    assert_eq!(balancer.next(7).unwrap_err(), ConnectionError::BackendNotFound);

    let mut balancer = LoadBalancer::new(Vec::new(), LoadBalancingAlgorithm::Random);
    assert_eq!(balancer.next(3).unwrap_err(), ConnectionError::BackendNotFound);
}

#[test]
fn the_default_algorithm_is_round_robin() {
    assert_eq!(
        LoadBalancingAlgorithm::default(),
        LoadBalancingAlgorithm::RoundRobin
    );
}

#[test]
fn services_choose_like_their_balancer() {
    let fields = ServiceConfigFields {
        backends: backends(2),
        load_balancing_algorithm: LoadBalancingAlgorithm::RoundRobin,
    };
    let mut tcp = TcpService::new(fields.clone());
    assert_eq!(tcp.next_backend(0).unwrap(), backend(0));
    assert_eq!(tcp.next_backend(0).unwrap(), backend(1));
    assert_eq!(tcp.next_backend(0).unwrap(), backend(0));

    let mut udp = UdpService::new(fields);
    assert_eq!(udp.get_address(9).unwrap(), backend(0));
    assert_eq!(udp.get_address(9).unwrap(), backend(1));
}

#[test]
fn a_service_has_the_protocol_of_its_configuration() {
    let fields = ServiceConfigFields {
        backends: backends(1),
        load_balancing_algorithm: LoadBalancingAlgorithm::Random,
    };
    let tcp = Service::new(StreamServiceConfig::Tcp(fields.clone()));
    let udp = Service::new(StreamServiceConfig::Udp(fields));

    assert_eq!(tcp.get_protocol(), StreamProtocol::Tcp);
    assert_eq!(udp.get_protocol(), StreamProtocol::Udp);
    assert!(matches!(tcp, Service::Tcp(_)));
    assert!(matches!(udp, Service::Udp(_)));
}

#[test]
fn a_backend_is_reached_at_its_address() {
    let b = BackendDefinition {
        port: 53,
        ip: IpAddress::V6(1),
    };
    assert_eq!(
        b.address(),
        SocketAddress {
            ip: IpAddress::V6(1),
            port: 53
        }
    );
}

#[test]
fn stream_config() {
    let config = StreamConfig::new(8080, StreamProtocol::Udp);
    assert_eq!(config.port, 8080);
    assert_eq!(config.protocol, StreamProtocol::Udp);
}
