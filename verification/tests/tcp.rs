use gateway::stream::tcp::{forwarded, relay_step, Peer, RelayStep, DEFAULT_BUFFER_SIZE};

#[test]
fn buffer_size() {
    assert_eq!(DEFAULT_BUFFER_SIZE, 4 * 1024);
}

#[test]
fn ends() {
    assert_eq!(Peer::Client.other(), Peer::Upstream);
    assert_eq!(Peer::Upstream.other(), Peer::Client);
}

#[test]
fn bytes_go_to_the_other_end() {
    assert_eq!(
        relay_step(Peer::Client, 5),
        RelayStep::Forward {
            to: Peer::Upstream,
            count: 5
        }
    );
    assert_eq!(
        relay_step(Peer::Upstream, 4096),
        RelayStep::Forward {
            to: Peer::Client,
            count: 4096
        }
    );
}

#[test]
fn an_empty_read_closes_the_other_end() {
    assert_eq!(
        relay_step(Peer::Client, 0),
        RelayStep::Close {
            shutdown: Peer::Upstream
        }
    );
    assert_eq!(
        relay_step(Peer::Upstream, 0),
        RelayStep::Close {
            shutdown: Peer::Client
        }
    );
}

#[test]
fn what_is_forwarded_is_what_was_read() {
    let mut buffer = [0u8; 16];
    buffer[..5].copy_from_slice(b"hello");

    assert_eq!(forwarded(&buffer, 5), b"hello");
    assert_eq!(forwarded(&buffer, 0), b"");
    assert_eq!(forwarded(&buffer, 16).len(), 16);
}

/// Runs the relay over reads as they would come from two sockets and
/// collects what each end is sent.
fn run(reads: &[(Peer, &[u8])]) -> (Vec<u8>, Vec<u8>, Option<Peer>) {
    let mut to_client = Vec::new();
    let mut to_upstream = Vec::new();
    for (from, data) in reads {
        let mut buffer = [0u8; DEFAULT_BUFFER_SIZE];
        buffer[..data.len()].copy_from_slice(data);
        match relay_step(*from, data.len()) {
            RelayStep::Forward { to, count } => {
                let bytes = forwarded(&buffer, count);
                match to {
                    Peer::Client => to_client.extend_from_slice(bytes),
                    Peer::Upstream => to_upstream.extend_from_slice(bytes),
                }
            }
            RelayStep::Close { shutdown } => return (to_client, to_upstream, Some(shutdown)),
        }
    }
    (to_client, to_upstream, None)
}

#[test]
fn echo_through_the_relay() {
    // The client says hello, the backend echoes, the client closes.
    let (to_client, to_upstream, closed) = run(&[
        (Peer::Client, b"hello"),
        (Peer::Upstream, b"hello"),
        (Peer::Client, b""),
    ]);

    assert_eq!(to_upstream, b"hello");
    assert_eq!(to_client, b"hello");
    assert_eq!(closed, Some(Peer::Upstream));
}

#[test]
fn both_directions_keep_their_order() {
    let (to_client, to_upstream, closed) = run(&[
        (Peer::Client, b"ab"),
        (Peer::Upstream, b"1"),
        (Peer::Client, b"c"),
        (Peer::Upstream, b"23"),
        (Peer::Client, b"def"),
        (Peer::Upstream, b""),
        (Peer::Client, b"lost"),
    ]);

    assert_eq!(to_upstream, b"abcdef");
    assert_eq!(to_client, b"123");
    assert_eq!(closed, Some(Peer::Client));
}
