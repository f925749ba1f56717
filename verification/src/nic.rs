//! The engine's side of the network interface.
//!
//! An [`Interface`] knows the local IPv4 address and collects, in order, the
//! datagrams that the engine wants transmitted. The program that owns the
//! device reads frames into a [`recv_result`], hands them to the engine, and
//! transmits what has been queued.

use vstd::prelude::*;
use vstd::slice::slice_to_vec;

verus! {

/// The size of the buffer a frame is read into.
pub const FRAME_BUFFER_LEN: usize = 1504;

/// The local address and the datagrams waiting to be transmitted, oldest
/// first.
pub struct Interface {
    pub ip: u32,
    pub outbox: Vec<Vec<u8>>,
}

/// One frame as it was read from the device: the buffer and the number of
/// bytes of it that were filled.
pub struct recv_result {
    pub data: [u8; FRAME_BUFFER_LEN],
    pub nbytes: usize,
}

impl Interface {
    /// The queued datagrams as byte sequences, oldest first.
    pub open spec fn queued(&self) -> Seq<Seq<u8>> {
        self.outbox@.map_values(|d: Vec<u8>| d@)
    }

    /// An interface with local address `ip` and nothing queued.
    pub fn new(ip: u32) -> (nic: Self)
        ensures
            nic.ip == ip,
            nic.queued() == Seq::<Seq<u8>>::empty(),
    {
        let nic = Interface { ip, outbox: Vec::new() };
        assert(nic.queued() =~= Seq::<Seq<u8>>::empty());
        nic
    }

    /// Queues one datagram for transmission and returns its length.
    pub fn send(&mut self, buf: &[u8]) -> (n: usize)
        ensures
            final(self).ip == old(self).ip,
            final(self).queued() == old(self).queued().push(buf@),
            n == buf@.len(),
    {
        let copy = slice_to_vec(buf);
        self.outbox.push(copy);
        assert(self.queued() =~= old(self).queued().push(buf@));
        buf.len()
    }
}

} // verus!
