//! Virtual connections over UDP.
//!
//! UDP has no connections, so the proxy keeps one per client address: the
//! backend that the client's datagrams go to, and the time of the last
//! datagram in either direction. A connection that has been idle for longer
//! than its time to live is stale, and the reaper removes it.
//!
//! Nothing here touches a socket or a clock. The caller says what arrived and
//! when, in nanoseconds of a clock that does not go back, and is told what to
//! send and what to close.

use crate::service::balancer::{chosen, ConnectionError};
use crate::service::config::SocketAddress;
use crate::service::UdpService;
use crate::stream::UdpFields;
use vstd::prelude::*;

verus! {

/// The size of the buffer that a datagram is received into.
pub const DEFAULT_BUFFER_SIZE: usize = 8192;

/// The time to live of a connection where the configuration gives none: ten
/// seconds, in nanoseconds.
pub const DEFAULT_TIME_TO_LIVE: u128 = 10_000_000_000;

/// The seconds between two runs of the reaper, in nanoseconds.
pub const REAPER_INTERVAL: u128 = 1_000_000_000;

/// A UDP listener: its port, the service behind it and the time to live of
/// its connections.
#[derive(Debug)]
pub struct UdpServer {
    pub port: u16,
    pub service: UdpService,
    pub biderectional_connection_ttl: u128,
}

/// The state of one virtual connection.
#[derive(Debug, Clone, Copy, PartialEq, Eq, Structural)]
pub struct UdpConnection {
    pub client: SocketAddress,
    pub upstream_address: SocketAddress,
    pub is_serving: bool,
    pub last_activity: u128,
    pub time_to_live: u128,
}

/// What a connection is made from.
#[derive(Debug, Clone, Copy, PartialEq, Eq, Structural)]
pub struct UdpConnectionBuilder {
    pub client: SocketAddress,
    pub upstream_address: SocketAddress,
    pub time_to_live: u128,
}

/// What to do with a datagram that a client has sent.
#[derive(Debug, Clone, Copy, PartialEq, Eq, Structural)]
pub enum DatagramAction {
    /// The client has a connection: send the datagram to `upstream` on the
    /// socket of that connection.
    Relay { upstream: SocketAddress },
    /// The client is new: open a socket for it, send the datagram to
    /// `upstream` on it and start serving what comes back.
    Open { upstream: SocketAddress },
}

/// The time that has passed at `now` since `since`; none if the clock reads
/// less than it did then.
pub open spec fn elapsed(since: u128, now: u128) -> int {
    if now >= since {
        now - since
    } else {
        0
    }
}

impl UdpConnectionBuilder {
    /// A builder for the connection of `client` to `upstream_address`, with
    /// the default time to live.
    pub fn new(client: SocketAddress, upstream_address: SocketAddress) -> (r: UdpConnectionBuilder)
        ensures
            r == (UdpConnectionBuilder {
                client,
                upstream_address,
                time_to_live: DEFAULT_TIME_TO_LIVE,
            }),
    {
        UdpConnectionBuilder { client, upstream_address, time_to_live: DEFAULT_TIME_TO_LIVE }
    }

    /// Sets the time to live.
    pub fn time_to_live(&mut self, ttl: u128)
        ensures
            *final(self) == (UdpConnectionBuilder { time_to_live: ttl, ..*old(self) }),
    {
        self.time_to_live = ttl;
    }

    /// The connection, new at `now` and not yet served.
    pub fn build(self, now: u128) -> (r: UdpConnection)
        ensures
            r == (UdpConnection {
                client: self.client,
                upstream_address: self.upstream_address,
                is_serving: false,
                last_activity: now,
                time_to_live: self.time_to_live,
            }),
    {
        UdpConnection {
            client: self.client,
            upstream_address: self.upstream_address,
            is_serving: false,
            last_activity: now,
            time_to_live: self.time_to_live,
        }
    }
}

impl UdpConnection {
    /// Whether the connection has been idle at `now` for longer than its
    /// time to live.
    pub open spec fn stale_at(&self, now: u128) -> bool {
        elapsed(self.last_activity, now) > self.time_to_live
    }

    /// Notes a datagram of the client at `now` and says where to send it.
    pub fn relay_client_message(&mut self, now: u128) -> (r: SocketAddress)
        ensures
            *final(self) == (UdpConnection { last_activity: now, ..*old(self) }),
            r == old(self).upstream_address,
    {
        self.last_activity = now;
        self.upstream_address
    }

    /// Marks the connection as served. Returns whether the caller has to
    /// start serving it: `false` where it is served already.
    pub fn serve_bidirectional(&mut self) -> (r: bool)
        ensures
            *final(self) == (UdpConnection { is_serving: true, ..*old(self) }),
            r == !old(self).is_serving,
    {
        let start = !self.is_serving;
        self.is_serving = true;
        start
    }

    /// What to do with a datagram that arrived at `now` from `peer` on the
    /// socket of this connection: from the backend it is noted and goes to the
    /// client, whose address is returned; from anyone else it is dropped and
    /// changes nothing.
    pub fn relay_upstream_message(&mut self, peer: SocketAddress, now: u128) -> (r: Option<
        SocketAddress,
    >)
        ensures
            peer == old(self).upstream_address ==> r == Some(old(self).client) && *final(self) == (
            UdpConnection { last_activity: now, ..*old(self) }),
            peer != old(self).upstream_address ==> r is None && *final(self) == *old(self),
    {
        if peer == self.upstream_address {
            self.last_activity = now;
            Some(self.client)
        } else {
            None
        }
    }

    /// Ends the connection. Returns whether there is a serving task to
    /// signal.
    pub fn close(self) -> (r: bool)
        ensures
            r == self.is_serving,
    {
        self.is_serving
    }

    /// Whether the connection has been idle at `now` for longer than its
    /// time to live.
    pub fn is_stale(&self, now: u128) -> (r: bool)
        ensures
            r == self.stale_at(now),
    {
        if now >= self.last_activity {
            now - self.last_activity > self.time_to_live
        } else {
            false
        }
    }
}

/// The connections that are stale at `now`.
pub open spec fn stale_filter(now: u128) -> spec_fn(UdpConnection) -> bool {
    |c: UdpConnection| c.stale_at(now)
}

/// The connections that are not stale at `now`.
pub open spec fn fresh_filter(now: u128) -> spec_fn(UdpConnection) -> bool {
    |c: UdpConnection| !c.stale_at(now)
}

/// The clients of a list of connections.
pub open spec fn clients_of(connections: Seq<UdpConnection>) -> Seq<SocketAddress> {
    Seq::new(connections.len(), |i: int| connections[i].client)
}

/// The connections of a listener, one per client, in the order in which
/// the clients appeared.
#[derive(Debug)]
pub struct ClientTable {
    connections: Vec<UdpConnection>,
}

impl View for ClientTable {
    type V = Seq<UdpConnection>;

    closed spec fn view(&self) -> Seq<UdpConnection> {
        self.connections@
    }
}

impl ClientTable {
    /// No client has two connections.
    pub open spec fn wf(&self) -> bool {
        clients_of(self@).no_duplicates()
    }

    /// An empty table.
    pub fn new() -> (r: ClientTable)
        ensures
            r@.len() == 0,
            r.wf(),
    {
        ClientTable { connections: Vec::new() }
    }

    /// The number of connections.
    pub fn len(&self) -> (r: usize)
        ensures
            r == self@.len(),
    {
        self.connections.len()
    }

    /// The position of the connection of `client`.
    pub fn find(&self, client: SocketAddress) -> (r: Option<usize>)
        ensures
            clients_of(self@).index_of_first(client) == match r {
                Some(i) => Some(i as int),
                None => None,
            },
            r matches Some(i) ==> i < self@.len() && self@[i as int].client == client,
            r is None ==> forall|j: int| 0 <= j < self@.len() ==> (#[trigger] self@[j]).client != client,
    {
        let ghost clients = clients_of(self@);
        let n = self.connections.len();
        let mut i: usize = 0;
        while i < n
            invariant
                i <= n,
                n == self.connections@.len(),
                clients == clients_of(self@),
                forall|j: int| 0 <= j < i ==> clients[j] != client,
            decreases n - i,
        {
            assert(clients[i as int] == self@[i as int].client);
            if self.connections[i].client == client {
                proof {
                    clients.index_of_first_ensures(client);
                    assert(clients.contains(client));
                }
                return Some(i);
            }
            i = i + 1;
        }
        proof {
            clients.index_of_first_ensures(client);
            assert forall|j: int| 0 <= j < self@.len() implies (#[trigger] self@[j]).client
                != client by {
                assert(clients[j] == self@[j].client);
            }
        }
        None
    }

    /// The connection at position `i`.
    pub fn get(&self, i: usize) -> (r: UdpConnection)
        requires
            i < self@.len(),
        ensures
            r == self@[i as int],
    {
        self.connections[i]
    }

    /// Notes a datagram that `client` sent at `now`.
    ///
    /// A client that has a connection keeps it, with the time of its last
    /// activity set to `now`. A new client gets a connection to `upstream`
    /// with the time to live `ttl`, served from the start, at the end of the
    /// table.
    pub fn register(&mut self, client: SocketAddress, upstream: SocketAddress, ttl: u128, now: u128) -> (r:
        DatagramAction)
        ensures
            old(self).wf() ==> final(self).wf(),
            match clients_of(old(self)@).index_of_first(client) {
                Some(i) => {
                    &&& r == (DatagramAction::Relay { upstream: old(self)@[i].upstream_address })
                    &&& final(self)@ == old(self)@.update(
                        i,
                        UdpConnection { last_activity: now, ..old(self)@[i] },
                    )
                },
                None => {
                    &&& r == (DatagramAction::Open { upstream })
                    &&& final(self)@ == old(self)@.push(
                        UdpConnection {
                            client,
                            upstream_address: upstream,
                            is_serving: true,
                            last_activity: now,
                            time_to_live: ttl,
                        },
                    )
                },
            },
    {
        let ghost before = self@;
        match self.find(client) {
            Some(i) => {
                let mut connection = self.connections[i];
                let upstream_address = connection.relay_client_message(now);
                self.connections.set(i, connection);
                proof {
                    assert(clients_of(self@) =~= clients_of(before));
                }
                DatagramAction::Relay { upstream: upstream_address }
            },
            None => {
                let mut builder = UdpConnectionBuilder::new(client, upstream);
                builder.time_to_live(ttl);
                let mut connection = builder.build(now);
                connection.relay_client_message(now);
                connection.serve_bidirectional();
                self.connections.push(connection);
                proof {
                    let after = clients_of(self@);
                    assert(after =~= clients_of(before).push(client));
                    assert forall|a: int, b: int|
                        clients_of(before).no_duplicates() &&
                        0 <= a < after.len() && 0 <= b < after.len() && a != b implies after[a]
                        != after[b] by {
                        if a < before.len() {
                            assert(before[a].client != client);
                            assert(after[a] == clients_of(before)[a]);
                        }
                        if b < before.len() {
                            assert(before[b].client != client);
                            assert(after[b] == clients_of(before)[b]);
                        }
                    }
                }
                DatagramAction::Open { upstream }
            },
        }
    }

    /// Notes a datagram that arrived at `now` from `peer` on the socket of
    /// the connection of `client`. Returns the client where the datagram is to
    /// be forwarded to it: where the client has a connection and `peer` is its
    /// backend.
    pub fn register_reply(&mut self, client: SocketAddress, peer: SocketAddress, now: u128) -> (r:
        Option<SocketAddress>)
        ensures
            old(self).wf() ==> final(self).wf(),
            match clients_of(old(self)@).index_of_first(client) {
                Some(i) => if peer == old(self)@[i].upstream_address {
                    &&& r == Some(client)
                    &&& final(self)@ == old(self)@.update(
                        i,
                        UdpConnection { last_activity: now, ..old(self)@[i] },
                    )
                } else {
                    r is None && final(self)@ == old(self)@
                },
                None => r is None && final(self)@ == old(self)@,
            },
    {
        let ghost before = self@;
        match self.find(client) {
            Some(i) => {
                let mut connection = self.connections[i];
                let target = connection.relay_upstream_message(peer, now);
                self.connections.set(i, connection);
                proof {
                    assert(clients_of(self@) =~= clients_of(before));
                    if target is None {
                        assert(self@ =~= before);
                    }
                }
                target
            },
            None => None,
        }
    }

    /// Removes the connections that are stale at `now` and returns them, for
    /// the caller to close. The others stay as they are and in their order.
    pub fn reap(&mut self, now: u128) -> (removed: Vec<UdpConnection>)
        ensures
            old(self).wf() ==> final(self).wf(),
            final(self)@ == old(self)@.filter(fresh_filter(now)),
            removed@ == old(self)@.filter(stale_filter(now)),
    {
        let ghost before = self@;
        let mut kept: Vec<UdpConnection> = Vec::new();
        let mut removed: Vec<UdpConnection> = Vec::new();
        let n = self.connections.len();
        let mut i: usize = 0;
        proof {
            assert(before.take(0) =~= Seq::<UdpConnection>::empty());
            reveal(Seq::filter);
        }
        while i < n
            invariant
                i <= n,
                n == before.len(),
                self.connections@ == before,
                kept@ == before.take(i as int).filter(fresh_filter(now)),
                removed@ == before.take(i as int).filter(stale_filter(now)),
            decreases n - i,
        {
            let connection = self.connections[i];
            proof {
                assert(before.take(i + 1) =~= before.take(i as int).push(connection));
                before.take(i as int).lemma_filter_push(connection, fresh_filter(now));
                before.take(i as int).lemma_filter_push(connection, stale_filter(now));
            }
            if connection.is_stale(now) {
                removed.push(connection);
            } else {
                kept.push(connection);
            }
            i = i + 1;
        }
        proof {
            assert(before.take(n as int) =~= before);
            if clients_of(before).no_duplicates() {
                lemma_filter_keeps_distinct(before, fresh_filter(now));
            }
        }
        self.connections = kept;
        removed
    }
}

/// The clients of a selection of connections are distinct where the clients
/// of all of them are.
pub proof fn lemma_filter_keeps_distinct(
    connections: Seq<UdpConnection>,
    keep: spec_fn(UdpConnection) -> bool,
)
    requires
        clients_of(connections).no_duplicates(),
    ensures
        clients_of(connections.filter(keep)).no_duplicates(),
    decreases connections.len(),
{
    reveal(Seq::filter);
    if connections.len() > 0 {
        let front = connections.drop_last();
        let last = connections.last();
        let whole = clients_of(connections);
        let n = connections.len() - 1;
        assert forall|a: int, b: int|
            0 <= a < front.len() && 0 <= b < front.len() && a != b implies clients_of(front)[a]
            != clients_of(front)[b] by {
            assert(whole[a] == front[a].client);
            assert(whole[b] == front[b].client);
        }
        lemma_filter_keeps_distinct(front, keep);
        let chosen = front.filter(keep);
        if keep(last) {
            let all = chosen.push(last);
            assert(connections.filter(keep) == all);
            assert forall|a: int, b: int|
                0 <= a < all.len() && 0 <= b < all.len() && a != b implies clients_of(all)[a]
                != clients_of(all)[b] by {
                if a < chosen.len() && b < chosen.len() {
                    assert(clients_of(chosen)[a] != clients_of(chosen)[b]);
                    assert(all[a] == chosen[a] && all[b] == chosen[b]);
                } else {
                    let inner = if a < chosen.len() {
                        a
                    } else {
                        b
                    };
                    assert(0 <= inner < chosen.len() && chosen[inner] == chosen[inner]);
                    assert(chosen.contains(chosen[inner]));
                    front.lemma_filter_contains_rev(keep, chosen[inner]);
                    let at = choose|at: int| 0 <= at < front.len() && front[at] == chosen[inner];
                    assert(whole[at] == connections[at].client);
                    assert(connections[at] == front[at]);
                    assert(whole[n] == last.client);
                    assert(whole[at] != whole[n]);
                    assert(all[inner] == chosen[inner]);
                    assert(all[chosen.len() as int] == last);
                }
            }
        } else {
            assert(connections.filter(keep) == chosen);
        }
    }
}

/// A connection that is stale stays stale as long as nothing arrives: once
/// the idle time has passed the time to live, it has at every later time.
pub proof fn lemma_stale_stays_stale(connection: UdpConnection, now: u128, later: u128)
    requires
        connection.stale_at(now),
        later >= now,
    ensures
        connection.stale_at(later),
{
}

/// Idle connections expire: a connection whose last datagram is more than
/// its time to live before `now` is not in the table after the reaper has run
/// at `now`, and is among those that the reaper hands back.
pub proof fn lemma_reaper_removes_idle(before: Seq<UdpConnection>, now: u128, idle: UdpConnection)
    requires
        before.contains(idle),
        now > idle.last_activity + idle.time_to_live,
    ensures
        !before.filter(fresh_filter(now)).contains(idle),
        before.filter(stale_filter(now)).contains(idle),
{
    let pick = fresh_filter(now);
    let drop = stale_filter(now);
    assert(idle.stale_at(now));
    let at = choose|at: int| 0 <= at < before.len() && before[at] == idle;
    before.lemma_filter_contains(drop, at);
    if before.filter(pick).contains(idle) {
        let j = choose|j: int| 0 <= j < before.filter(pick).len() && before.filter(pick)[j] == idle;
        before.lemma_filter_pred(pick, j);
    }
}

/// An idle connection goes within one run of the reaper after it has
/// expired: if the reaper runs at `previous` and next at `tick`, no more than
/// its interval later, and the connection expires in between, then `tick` is
/// no more than an interval after the expiry, and the run at `tick` removes
/// the connection.
pub proof fn lemma_expiry_within_a_tick(
    before: Seq<UdpConnection>,
    idle: UdpConnection,
    previous: u128,
    tick: u128,
)
    requires
        before.contains(idle),
        previous <= idle.last_activity + idle.time_to_live < tick,
        tick <= previous + REAPER_INTERVAL,
    ensures
        tick - (idle.last_activity + idle.time_to_live) <= REAPER_INTERVAL,
        !before.filter(fresh_filter(tick)).contains(idle),
{
    lemma_reaper_removes_idle(before, tick, idle);
}

impl UdpServer {
    /// A listener as `config` describes it, over `service`. The time to live
    /// of its connections is the configured one, or ten seconds.
    pub fn new(config: UdpFields, service: UdpService) -> (r: UdpServer)
        ensures
            r.port == config.port,
            r.service == service,
            r.biderectional_connection_ttl == match config.biderectional_connection_ttl {
                Some(ttl) => ttl,
                None => DEFAULT_TIME_TO_LIVE,
            },
    {
        UdpServer {
            port: config.port,
            service,
            biderectional_connection_ttl: match config.biderectional_connection_ttl {
                Some(ttl) => ttl,
                None => DEFAULT_TIME_TO_LIVE,
            },
        }
    }

    /// What to do with a datagram that `client` sent at `now`.
    ///
    /// The service chooses a backend for every datagram; `draw` is the
    /// number drawn for a random choice. A client that has a connection keeps
    /// the backend of that connection, a new client gets the chosen one. A
    /// service without backends fails and leaves the table as it is.
    pub fn receive(&mut self, table: &mut ClientTable, client: SocketAddress, now: u128, draw: u64) -> (r:
        Result<DatagramAction, ConnectionError>)
        ensures
            final(self).port == old(self).port,
            final(self).biderectional_connection_ttl == old(self).biderectional_connection_ttl,
            old(table).wf() ==> final(table).wf(),
            exists|selected: Result<crate::service::config::BackendDefinition, ConnectionError>|
                {
                    &&& #[trigger] chosen(
                        old(self).service.load_balancer,
                        draw,
                        selected,
                        final(self).service.load_balancer,
                    )
                    &&& received(
                        old(table)@,
                        client,
                        now,
                        old(self).biderectional_connection_ttl,
                        selected,
                        r,
                        final(table)@,
                    )
                },
    {
        let selected = self.service.get_address(draw);
        let ttl = self.biderectional_connection_ttl;
        let r = match selected {
            Err(e) => Err(e),
            Ok(backend) => {
                let action = table.register(client, backend.address(), ttl, now);
                Ok(action)
            },
        };
        proof {
            assert(chosen(old(self).service.load_balancer, draw, selected, self.service.load_balancer));
            assert(received(old(table)@, client, now, ttl, selected, r, table@));
        }
        r
    }
}

/// What a datagram of `client` at `now` does to the connections `before`,
/// given what the service `selected`: the answer `result` and the connections
/// `after`.
pub open spec fn received(
    before: Seq<UdpConnection>,
    client: SocketAddress,
    now: u128,
    ttl: u128,
    selected: Result<crate::service::config::BackendDefinition, ConnectionError>,
    result: Result<DatagramAction, ConnectionError>,
    after: Seq<UdpConnection>,
) -> bool {
    match selected {
        Err(e) => result == Err::<DatagramAction, ConnectionError>(e) && after == before,
        Ok(backend) => match clients_of(before).index_of_first(client) {
            Some(i) => {
                &&& result == Ok::<DatagramAction, ConnectionError>(
                    DatagramAction::Relay { upstream: before[i].upstream_address },
                )
                &&& after == before.update(i, UdpConnection { last_activity: now, ..before[i] })
            },
            None => {
                &&& result == Ok::<DatagramAction, ConnectionError>(
                    DatagramAction::Open {
                        upstream: SocketAddress { ip: backend.ip, port: backend.port },
                    },
                )
                &&& after == before.push(
                    UdpConnection {
                        client,
                        upstream_address: SocketAddress { ip: backend.ip, port: backend.port },
                        is_serving: true,
                        last_activity: now,
                        time_to_live: ttl,
                    },
                )
            },
        },
    }
}

} // verus!
