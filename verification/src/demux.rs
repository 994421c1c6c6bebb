//! Classification of inbound datagrams that share one UDP socket between QUIC
//! and connectivity checks.

use vstd::prelude::*;

verus! {

/// The bit of the first byte that every QUIC packet has set.
pub const QUIC_FIXED_BIT: u8 = 0x40;

/// Whether a first byte belongs to a QUIC packet.
pub open spec fn spec_is_quic_byte(first: u8) -> bool {
    first & QUIC_FIXED_BIT != 0
}

/// Whether the datagram that starts with `b` is a QUIC packet. Only the first
/// byte is looked at.
pub fn is_packet_quic(b: &[u8]) -> (r: bool)
    requires
        b@.len() > 0,
    ensures
        r == spec_is_quic_byte(b@[0]),
{
    b[0] & QUIC_FIXED_BIT != 0
}

/// Where an inbound datagram goes.
#[derive(Debug, PartialEq, Eq)]
pub enum Delivery<'a, I, Q> {
    /// To the QUIC stack, through this callback.
    Quic(&'a Q),
    /// To the connectivity checks, through this callback.
    Ice(&'a I),
    /// Nowhere: nobody registered for this kind of datagram.
    Dropped,
}

/// Routes the datagrams of one socket to the QUIC stack or to the
/// connectivity checks. `I` and `Q` are the types of the two callbacks.
pub struct Multiplexer<I, Q> {
    ice_callback: Option<I>,
    quic_callback: Option<Q>,
}

impl<I, Q> Multiplexer<I, Q> {
    /// The callback for datagrams that are not QUIC.
    pub closed spec fn spec_ice_callback(&self) -> Option<I> {
        self.ice_callback
    }

    /// The callback for QUIC packets.
    pub closed spec fn spec_quic_callback(&self) -> Option<Q> {
        self.quic_callback
    }

    /// Where a datagram whose first byte is `first` goes.
    pub open spec fn spec_route(&self, first: u8) -> Delivery<'_, I, Q> {
        if spec_is_quic_byte(first) {
            match self.spec_quic_callback() {
                Some(q) => Delivery::Quic(&q),
                None => Delivery::Dropped,
            }
        } else {
            match self.spec_ice_callback() {
                Some(i) => Delivery::Ice(&i),
                None => Delivery::Dropped,
            }
        }
    }

    /// A multiplexer with no callback registered.
    pub fn new() -> (r: Multiplexer<I, Q>)
        ensures
            r.spec_ice_callback() is None,
            r.spec_quic_callback() is None,
    {
        Multiplexer { ice_callback: None, quic_callback: None }
    }

    /// Registers the callback for datagrams that are not QUIC, in place of
    /// an earlier one.
    pub fn register_ice_callback(&mut self, ice_callback: I)
        ensures
            final(self).spec_ice_callback() == Some(ice_callback),
            final(self).spec_quic_callback() == old(self).spec_quic_callback(),
    {
        self.ice_callback = Some(ice_callback);
    }

    /// Registers the callback for QUIC packets, in place of an earlier one.
    pub fn register_quic_callback(&mut self, quic_callback: Q)
        ensures
            final(self).spec_quic_callback() == Some(quic_callback),
            final(self).spec_ice_callback() == old(self).spec_ice_callback(),
    {
        self.quic_callback = Some(quic_callback);
    }

    /// Picks the callback for the datagram that starts with `b`: the QUIC
    /// callback if the fixed bit is set, the other one if not. A datagram
    /// for which no callback is registered is dropped.
    pub fn route(&self, b: &[u8]) -> (r: Delivery<'_, I, Q>)
        requires
            b@.len() > 0,
        ensures
            r == self.spec_route(b@[0]),
    {
        if is_packet_quic(b) {
            match &self.quic_callback {
                Some(q) => Delivery::Quic(q),
                None => Delivery::Dropped,
            }
        } else {
            match &self.ice_callback {
                Some(i) => Delivery::Ice(i),
                None => Delivery::Dropped,
            }
        }
    }
}

} // verus!
