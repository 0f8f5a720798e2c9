//! Relaying a TCP connection.
//!
//! The relay reads from the client and from the backend at once. Whatever
//! one side sends goes to the other, whole and in order; when one side has
//! nothing more to send, the other is told so, and the relay ends.
//!
//! The reading and the writing are the caller's. Here is the decision what
//! to do after each read, and what the decisions amount to over a whole
//! connection.

use crate::service::TcpService;
use crate::stream::TcpFields;
use vstd::prelude::*;

verus! {

/// The size of the buffer that each direction reads into.
pub const DEFAULT_BUFFER_SIZE: usize = 4096;

/// A TCP listener: what it is configured with and the service behind it.
#[derive(Debug)]
pub struct TcpServer {
    pub config: TcpFields,
    pub service: TcpService,
}

/// One end of a relayed connection.
#[derive(Debug, Clone, Copy, PartialEq, Eq, Structural)]
pub enum Peer {
    Client,
    Upstream,
}

/// What to do after a read.
#[derive(Debug, Clone, Copy, PartialEq, Eq, Structural)]
pub enum RelayStep {
    /// Write the first `count` bytes of the buffer to `to`, all of them, and
    /// go on reading.
    Forward { to: Peer, count: usize },
    /// Shut down the writing half of `shutdown` and end the relay.
    Close { shutdown: Peer },
}

/// One read in the life of a connection: who was read from, and the bytes
/// that came.
pub struct Chunk {
    pub from: Peer,
    pub data: Seq<u8>,
}

impl Peer {
    /// The other end.
    pub open spec fn opposite(self) -> Peer {
        match self {
            Peer::Client => Peer::Upstream,
            Peer::Upstream => Peer::Client,
        }
    }

    /// The other end.
    pub fn other(self) -> (r: Peer)
        ensures
            r == self.opposite(),
    {
        match self {
            Peer::Client => Peer::Upstream,
            Peer::Upstream => Peer::Client,
        }
    }
}

/// What follows a read of `count` bytes from `from`: the end of the relay
/// where nothing came, because `from` has closed, and otherwise the bytes on
/// their way to the other end.
pub open spec fn step_after(from: Peer, count: nat) -> RelayStep {
    if count == 0 {
        RelayStep::Close { shutdown: from.opposite() }
    } else {
        RelayStep::Forward { to: from.opposite(), count: count as usize }
    }
}

/// The bytes that `step` writes to `to` when `data` is what was read.
pub open spec fn step_output(step: RelayStep, data: Seq<u8>, to: Peer) -> Seq<u8> {
    match step {
        RelayStep::Forward { to: target, count } => if target == to {
            data.take(count as int)
        } else {
            Seq::empty()
        },
        RelayStep::Close { .. } => Seq::empty(),
    }
}

/// The bytes that the relay writes to `to` over the reads `reads`: what
/// each step writes, one after another, up to the step that ends the relay.
pub open spec fn written(reads: Seq<Chunk>, to: Peer) -> Seq<u8>
    decreases reads.len(),
{
    if reads.len() == 0 {
        Seq::empty()
    } else {
        let step = step_after(reads[0].from, reads[0].data.len());
        match step {
            RelayStep::Close { .. } => Seq::empty(),
            RelayStep::Forward { .. } => step_output(step, reads[0].data, to) + written(
                reads.drop_first(),
                to,
            ),
        }
    }
}

/// The bytes that `from` has sent over the reads `reads`, up to the first
/// read in which either end had nothing more to send.
pub open spec fn sent(reads: Seq<Chunk>, from: Peer) -> Seq<u8>
    decreases reads.len(),
{
    if reads.len() == 0 || reads[0].data.len() == 0 {
        Seq::empty()
    } else if reads[0].from == from {
        reads[0].data + sent(reads.drop_first(), from)
    } else {
        sent(reads.drop_first(), from)
    }
}

/// What to do after a read of `count` bytes from `from`.
pub fn relay_step(from: Peer, count: usize) -> (r: RelayStep)
    ensures
        r == step_after(from, count as nat),
{
    if count == 0 {
        RelayStep::Close { shutdown: from.other() }
    } else {
        RelayStep::Forward { to: from.other(), count }
    }
}

/// The bytes to write for a step that forwards `count` bytes of `buffer`.
pub fn forwarded<'a>(buffer: &'a [u8], count: usize) -> (r: &'a [u8])
    requires
        count <= buffer@.len(),
    ensures
        r@ == buffer@.take(count as int),
{
    vstd::slice::slice_subrange(buffer, 0, count)
}

/// The relay is exact: over any reads whose chunks fit in a buffer, what is
/// written to one end is what the other end has sent, byte for byte and in
/// order, in both directions.
pub proof fn lemma_relay_is_exact(reads: Seq<Chunk>, to: Peer)
    requires
        forall|i: int| 0 <= i < reads.len() ==> (#[trigger] reads[i]).data.len() <= usize::MAX,
    ensures
        written(reads, to) == sent(reads, to.opposite()),
    decreases reads.len(),
{
    if reads.len() > 0 && reads[0].data.len() > 0 {
        let rest = reads.drop_first();
        assert forall|i: int| 0 <= i < rest.len() implies (#[trigger] rest[i]).data.len()
            <= usize::MAX by {
            assert(rest[i] == reads[i + 1]);
        }
        lemma_relay_is_exact(rest, to);
        let data = reads[0].data;
        assert(data.take(data.len() as int) =~= data);
        assert(Seq::<u8>::empty() + written(rest, to) =~= written(rest, to));
    }
}

} // verus!
