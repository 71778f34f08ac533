//! The request/response exchange: which requests are under way and to whom.
//! Each request that is sent gets an identifier of its own; the response or
//! the failure that ends it consumes the identifier, once.

use crate::peer::PeerIdentity;
use std::collections::HashMap;
use vstd::prelude::*;
use vstd::std_specs::hash::*;

verus! {

broadcast use vstd::std_specs::hash::group_hash_axioms;

/// The requests under way.
#[derive(Debug)]
pub struct Exchange {
    next: u64,
    pending: HashMap<u64, PeerIdentity>,
}

impl Exchange {
    /// The requests under way: for each identifier the peer that the request
    /// went to.
    pub closed spec fn pending(&self) -> Map<u64, Seq<u8>> {
        self.pending@.map_values(|p: PeerIdentity| p@)
    }

    /// The identifier that the next request gets.
    pub closed spec fn next_id(&self) -> u64 {
        self.next
    }

    #[verifier::type_invariant]
    spec fn inv(&self) -> bool {
        forall|id: u64| self.pending@.contains_key(id) ==> id < self.next
    }

    /// An exchange with no request under way.
    pub fn new() -> (r: Self)
        ensures
            r.pending() == Map::<u64, Seq<u8>>::empty(),
            r.next_id() == 0,
    {
        let r = Exchange { next: 0, pending: HashMap::new() };
        assert(r.pending() =~= Map::<u64, Seq<u8>>::empty());
        r
    }

    /// How many requests are under way.
    pub fn outstanding(&self) -> (n: usize)
        ensures
            n == self.pending().len(),
    {
        proof {
            assert(self.pending().dom() =~= self.pending@.dom());
        }
        self.pending.len()
    }

    /// Records a request to `peer` and gives its identifier, which no
    /// request had before. When the identifiers have run out, nothing is
    /// recorded.
    pub fn dispatch(&mut self, peer: PeerIdentity) -> (r: Option<u64>)
        ensures
            match r {
                Some(id) => {
                    &&& id == old(self).next_id()
                    &&& final(self).next_id() == id + 1
                    &&& !old(self).pending().contains_key(id)
                    &&& final(self).pending() == old(self).pending().insert(id, peer@)
                },
                None => {
                    &&& old(self).next_id() == u64::MAX
                    &&& final(self).next_id() == old(self).next_id()
                    &&& final(self).pending() == old(self).pending()
                },
            },
    {
        proof {
            use_type_invariant(&*self);
        }
        if self.next == u64::MAX {
            return None;
        }
        let id = self.next;
        let ghost before = self.pending@;
        let mut pending: HashMap<u64, PeerIdentity> = HashMap::new();
        core::mem::swap(&mut self.pending, &mut pending);
        pending.insert(id, peer);
        self.next = id + 1;
        self.pending = pending;
        proof {
            assert(self.pending@ == before.insert(id, peer));
            assert(self.pending() =~= before.map_values(|p: PeerIdentity| p@).insert(id, peer@));
        }
        Some(id)
    }

    /// Ends the request `id`: gives the peer it went to and forgets the
    /// identifier, so that a second event for it finds nothing.
    pub fn complete(&mut self, id: u64) -> (r: Option<PeerIdentity>)
        ensures
            final(self).next_id() == old(self).next_id(),
            final(self).pending() == old(self).pending().remove(id),
            !final(self).pending().contains_key(id),
            match r {
                Some(peer) => {
                    &&& old(self).pending().contains_key(id)
                    &&& old(self).pending()[id] == peer@
                    &&& id < old(self).next_id()
                },
                None => !old(self).pending().contains_key(id),
            },
    {
        proof {
            use_type_invariant(&*self);
        }
        let ghost before = self.pending@;
        let mut pending: HashMap<u64, PeerIdentity> = HashMap::new();
        core::mem::swap(&mut self.pending, &mut pending);
        let r = pending.remove(&id);
        self.pending = pending;
        proof {
            assert(self.pending@ == before.remove(id));
            assert(self.pending() =~= before.map_values(|p: PeerIdentity| p@).remove(id));
        }
        r
    }
}

} // verus!
