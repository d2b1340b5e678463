use vstd::prelude::*;

use crate::address::SocketAddress;

verus! {

/// Bytes received per datagram on either side of a tunnel.
pub const BUFFER_SIZE: usize = 2048;

/// Seconds the destination-to-streamer direction waits for a datagram.
pub const REVERSE_IDLE_SECS: u64 = 30;

#[derive(PartialEq, Eq, Clone, Copy, Debug)]
pub enum TunnelError {
    /// No datagram has come from the streamer yet, so there is no peer to
    /// send to.
    NoStreamerAddress,
}

/// The payload to forward: the first `size` bytes of the receive buffer.
pub fn datagram(buf: &[u8], size: usize) -> (r: Vec<u8>)
    requires
        size <= buf@.len(),
    ensures
        r@ == buf@.subrange(0, size as int),
{
    let mut r: Vec<u8> = Vec::new();
    let mut i: usize = 0;
    while i < size
        invariant
            i <= size <= buf@.len(),
            r@ == buf@.subrange(0, i as int),
        decreases size - i,
    {
        r.push(buf[i]);
        i += 1;
        assert(r@ =~= buf@.subrange(0, i as int));
    }
    r
}

/// The learned peer after a datagram from `source`: always the latest sender.
pub fn learn_peer(peer: &mut Option<SocketAddress>, source: SocketAddress)
    ensures
        *final(peer) == Some(source),
{
    *peer = Some(source);
}

/// Where a datagram from the destination goes: the learned streamer address.
pub fn reverse_target(peer: Option<SocketAddress>) -> (r: Result<SocketAddress, TunnelError>)
    ensures
        peer is Some ==> r == Ok::<SocketAddress, TunnelError>(peer->Some_0),
        peer is None ==> r == Err::<SocketAddress, TunnelError>(TunnelError::NoStreamerAddress),
{
    match peer {
        Some(a) => Ok(a),
        None => Err(TunnelError::NoStreamerAddress),
    }
}

/// The forward direction starts its reverse partner on its first datagram only.
pub fn starts_reverse(reverse_started: bool) -> (r: bool)
    ensures
        r == !reverse_started,
{
    !reverse_started
}

} // verus!
