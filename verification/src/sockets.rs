//! The set of UDP sockets of one endpoint, one per local address, each under
//! the token that the event loop reports it by.

use vstd::prelude::*;
use crate::addr::SocketAddress;
use crate::socket::SocketState;
use crate::socket::SocketView;
use slab::Slab;

verus! {

/// `slab::Slab`: a collection that stores each value under a key of its
/// own choosing.
#[verifier::external_type_specification]
#[verifier::external_body]
#[verifier::reject_recursive_types(T)]
pub struct ExSlab<T>(Slab<T>);

/// What a `slab::Slab` of socket states holds: the state under each key in
/// use.
pub uninterp spec fn slab_sockets(slab: Slab<SocketState>) -> Map<usize, SocketState>;

/// The most sockets that room is reserved for ahead of time.
pub const MAX_RESERVED_SOCKETS: usize = 1024;

/// `slab::Slab::with_capacity`: a slab that holds nothing. The capacity is
/// kept small enough for the reservation not to overflow.
#[verifier::external_body]
fn slab_with_capacity(capacity: usize) -> (r: Slab<SocketState>)
    requires
        capacity <= MAX_RESERVED_SOCKETS,
    ensures
        slab_sockets(r) == (Map::<usize, SocketState>::empty()),
{
    Slab::with_capacity(capacity)
}

/// `slab::Slab::insert`: stores the value under a key that was not in use
/// and returns that key; what was stored before stays. As with `Vec::push`,
/// running out of memory is not part of the contract.
#[verifier::external_body]
fn slab_insert(slab: &mut Slab<SocketState>, val: SocketState) -> (key: usize)
    ensures
        !slab_sockets(*old(slab)).contains_key(key),
        slab_sockets(*final(slab)) == slab_sockets(*old(slab)).insert(key, val),
{
    slab.insert(val)
}

/// `slab::Slab::get`: the value under `key`, if the key is in use.
#[verifier::external_body]
fn slab_get(slab: &Slab<SocketState>, key: usize) -> (r: Option<&SocketState>)
    ensures
        r is Some <==> slab_sockets(*slab).contains_key(key),
        r matches Some(v) ==> *v == slab_sockets(*slab)[key],
{
    slab.get(key)
}

/// `slab::Slab::get_mut`: the value under `key` for the caller to change,
/// if the key is in use; every other key keeps its value.
#[verifier::external_body]
fn slab_get_mut(slab: &mut Slab<SocketState>, key: usize) -> (r: Option<&mut SocketState>)
    ensures
        r is Some <==> slab_sockets(*old(slab)).contains_key(key),
        r is None ==> slab_sockets(*final(slab)) == slab_sockets(*old(slab)),
        r matches Some(v) ==> *v == slab_sockets(*old(slab))[key] && slab_sockets(*final(slab))
            == slab_sockets(*old(slab)).insert(key, *final(v)),
{
    slab.get_mut(key)
}

/// One local address and the token of the socket bound to it.
#[derive(Clone, Copy, Debug, PartialEq, Eq, Structural)]
pub struct AddrToken {
    pub addr: SocketAddress,
    pub token: usize,
}

/// The token that a list of bindings gives for `addr`: that of the last
/// binding of the address.
pub open spec fn spec_token_of(bindings: Seq<AddrToken>, addr: SocketAddress) -> Option<usize>
    decreases bindings.len(),
{
    if bindings.len() == 0 {
        None
    } else if bindings.last().addr == addr {
        Some(bindings.last().token)
    } else {
        spec_token_of(bindings.drop_last(), addr)
    }
}

/// A token that the bindings give for an address stands in one of them.
pub proof fn lemma_token_is_bound(bindings: Seq<AddrToken>, addr: SocketAddress)
    requires
        spec_token_of(bindings, addr) is Some,
    ensures
        exists|i: int|
            0 <= i < bindings.len() && (#[trigger] bindings[i]).addr == addr && bindings[i].token
                == spec_token_of(bindings, addr).unwrap(),
    decreases bindings.len(),
{
    if bindings.last().addr == addr {
        assert(bindings[bindings.len() - 1].addr == addr);
    } else {
        lemma_token_is_bound(bindings.drop_last(), addr);
        let i = choose|i: int|
            0 <= i < bindings.drop_last().len() && (#[trigger] bindings.drop_last()[i]).addr == addr
                && bindings.drop_last()[i].token == spec_token_of(bindings.drop_last(), addr).unwrap();
        assert(bindings[i].addr == addr);
    }
}

/// The sockets of one endpoint.
pub struct SocketSet {
    sockets: Slab<SocketState>,
    src_addr_tokens: Vec<AddrToken>,
}

impl SocketSet {
    /// The socket state under each token.
    pub closed spec fn spec_sockets(&self) -> Map<usize, SocketState> {
        slab_sockets(self.sockets)
    }

    /// The bindings of local addresses to tokens, oldest first.
    pub closed spec fn spec_bindings(&self) -> Seq<AddrToken> {
        self.src_addr_tokens@
    }

    /// The token of the socket bound to `addr`.
    pub open spec fn spec_token(&self, addr: SocketAddress) -> Option<usize> {
        spec_token_of(self.spec_bindings(), addr)
    }

    /// Every socket is well-formed, and every binding names a socket that is
    /// bound to the address of the binding.
    pub open spec fn wf(&self) -> bool {
        &&& forall|t: usize| #[trigger]
            self.spec_sockets().contains_key(t) ==> self.spec_sockets()[t].wf()
        &&& forall|i: int|
            0 <= i < self.spec_bindings().len() ==> self.spec_sockets().contains_key(
                (#[trigger] self.spec_bindings()[i]).token,
            ) && self.spec_sockets()[self.spec_bindings()[i].token]@.local_addr
                == self.spec_bindings()[i].addr
    }

    /// A set without sockets, with room reserved for `capacity` of them, as
    /// far as room is reserved ahead of time.
    pub fn new(capacity: usize) -> (r: SocketSet)
        ensures
            r.wf(),
            r.spec_sockets() == Map::<usize, SocketState>::empty(),
            r.spec_bindings() == Seq::<AddrToken>::empty(),
    {
        let reserved: usize = if capacity <= MAX_RESERVED_SOCKETS {
            capacity
        } else {
            MAX_RESERVED_SOCKETS
        };
        SocketSet { sockets: slab_with_capacity(reserved), src_addr_tokens: Vec::new() }
    }

    /// Adds the socket bound to `local_addr`, with a send buffer of
    /// `buf_capacity` bytes. Returns its token, which no other socket has.
    pub fn add(&mut self, local_addr: SocketAddress, buf_capacity: usize) -> (token: usize)
        requires
            old(self).wf(),
        ensures
            final(self).wf(),
            !old(self).spec_sockets().contains_key(token),
            final(self).spec_sockets().dom() == old(self).spec_sockets().dom().insert(token),
            forall|t: usize| #[trigger]
                old(self).spec_sockets().contains_key(t) ==> final(self).spec_sockets()[t] == old(self).spec_sockets()[t],
            final(self).spec_sockets()[token]@ == (SocketView {
                local_addr,
                buffer: Seq::new(buf_capacity as nat, |i: int| 0u8),
                until: 0,
                send_info: None,
                max_datagram_size: 0,
                would_block_cntr: 0,
            }),
            final(self).spec_bindings() == old(self).spec_bindings().push(
                AddrToken { addr: local_addr, token },
            ),
            final(self).spec_token(local_addr) == Some(token),
    {
        let state = SocketState::new(local_addr, buf_capacity);
        let ghost before = self.src_addr_tokens@;
        let token: usize = slab_insert(&mut self.sockets, state);
        self.src_addr_tokens.push(AddrToken { addr: local_addr, token });
        proof {
            assert(self.src_addr_tokens@.drop_last() =~= before);
            assert(self.spec_sockets().dom() =~= old(self).spec_sockets().dom().insert(token));
            assert forall|i: int| 0 <= i < self.spec_bindings().len() implies self.spec_sockets().contains_key(
                (#[trigger] self.spec_bindings()[i]).token,
            ) && self.spec_sockets()[self.spec_bindings()[i].token]@.local_addr
                == self.spec_bindings()[i].addr by {
                if i < before.len() {
                    assert(old(self).spec_sockets().contains_key(before[i].token));
                    assert(self.spec_bindings()[i] == before[i]);
                }
            }
        }
        token
    }

    /// How many bindings of addresses to sockets there are.
    pub fn len(&self) -> (r: usize)
        ensures
            r == self.spec_bindings().len(),
    {
        self.src_addr_tokens.len()
    }

    /// The binding at position `i`, oldest first.
    pub fn binding(&self, i: usize) -> (r: AddrToken)
        requires
            i < self.spec_bindings().len(),
        ensures
            r == self.spec_bindings()[i as int],
    {
        self.src_addr_tokens[i]
    }

    /// The token of the socket bound to `local_addr`.
    pub fn token_of(&self, local_addr: &SocketAddress) -> (r: Option<usize>)
        ensures
            r == self.spec_token(*local_addr),
    {
        let mut i: usize = self.src_addr_tokens.len();
        assert(self.src_addr_tokens@.take(i as int) =~= self.src_addr_tokens@);
        while i > 0
            invariant
                i <= self.src_addr_tokens@.len(),
                spec_token_of(self.src_addr_tokens@, *local_addr) == spec_token_of(
                    self.src_addr_tokens@.take(i as int),
                    *local_addr,
                ),
            decreases i,
        {
            let ghost front = self.src_addr_tokens@.take(i as int);
            i = i - 1;
            assert(front.drop_last() =~= self.src_addr_tokens@.take(i as int));
            assert(front.last() == self.src_addr_tokens@[i as int]);
            if self.src_addr_tokens[i].addr == *local_addr {
                return Some(self.src_addr_tokens[i].token);
            }
        }
        assert(self.src_addr_tokens@.take(0) =~= Seq::<AddrToken>::empty());
        None
    }

    /// The state of the socket under `token`.
    pub fn get(&self, token: usize) -> (r: Option<&SocketState>)
        requires
            self.wf(),
        ensures
            r is Some <==> self.spec_sockets().contains_key(token),
            r matches Some(s) ==> *s == self.spec_sockets()[token] && s.wf(),
    {
        slab_get(&self.sockets, token)
    }

    /// The state of the socket under `token`, for the caller to change. The
    /// set stays well-formed when the state does.
    pub fn get_mut(&mut self, token: usize) -> (r: Option<&mut SocketState>)
        requires
            old(self).wf(),
        ensures
            r is Some <==> old(self).spec_sockets().contains_key(token),
            r is None ==> final(self).spec_sockets() == old(self).spec_sockets(),
            r matches Some(s) ==> *s == old(self).spec_sockets()[token] && s.wf() && final(self).spec_sockets() == old(self).spec_sockets().insert(token, *final(s)),
            final(self).spec_bindings() == old(self).spec_bindings(),
    {
        slab_get_mut(&mut self.sockets, token)
    }

    /// In a well-formed set whose socket under `token` was replaced by a
    /// well-formed state for the same address, every socket is well-formed.
    pub proof fn lemma_wf_after_change(before: SocketSet, after: SocketSet, token: usize)
        requires
            before.wf(),
            before.spec_sockets().contains_key(token),
            after.spec_bindings() == before.spec_bindings(),
            after.spec_sockets() == before.spec_sockets().insert(token, after.spec_sockets()[token]),
            after.spec_sockets()[token].wf(),
            after.spec_sockets()[token]@.local_addr == before.spec_sockets()[token]@.local_addr,
        ensures
            after.wf(),
    {
        assert forall|i: int| 0 <= i < after.spec_bindings().len() implies after.spec_sockets().contains_key(
            (#[trigger] after.spec_bindings()[i]).token,
        ) && after.spec_sockets()[after.spec_bindings()[i].token]@.local_addr
            == after.spec_bindings()[i].addr by {
            assert(before.spec_sockets().contains_key(before.spec_bindings()[i].token));
        }
        assert forall|t: usize| #[trigger] after.spec_sockets().contains_key(t) implies after.spec_sockets()[t].wf() by {
            if t != token {
                assert(before.spec_sockets().contains_key(t));
            }
        }
    }

    /// For every socket of a well-formed set, a destination is set exactly
    /// when bytes wait to be written.
    pub proof fn lemma_send_info_iff_until(&self, token: usize)
        requires
            self.wf(),
            self.spec_sockets().contains_key(token),
        ensures
            self.spec_sockets()[token]@.send_info is Some <==> self.spec_sockets()[token]@.until
                > 0,
    {
        crate::socket::lemma_pending_iff_send_info(self.spec_sockets()[token]);
    }
}

/// Whether the socket of binding `i` is as it was made, with nothing
/// waiting in a zeroed buffer of `capacity` bytes.
pub open spec fn spec_fresh(sockets: SocketSet, i: int, capacity: nat) -> bool {
    let binding = sockets.spec_bindings()[i];
    &&& sockets.spec_sockets().contains_key(binding.token)
    &&& sockets.spec_sockets()[binding.token]@ == (SocketView {
        local_addr: binding.addr,
        buffer: Seq::new(capacity, |k: int| 0u8),
        until: 0,
        send_info: None,
        max_datagram_size: 0,
        would_block_cntr: 0,
    })
}

} // verus!
