//! The answering side: what a peer replies to a request, from what its
//! routing table holds and from the addresses under which others see it.

use crate::message::{Request, Response, ResponseView};
use crate::peer::{clone_addresses, views, NetworkAddress, PeerIdentity};
use vstd::prelude::*;

verus! {

/// What the routing table knows of one peer.
#[derive(Debug, PartialEq, Eq)]
pub struct RoutingEntry {
    pub peer: PeerIdentity,
    pub addresses: Vec<NetworkAddress>,
}

impl View for RoutingEntry {
    type V = (Seq<u8>, Seq<Seq<u8>>);

    open spec fn view(&self) -> (Seq<u8>, Seq<Seq<u8>>) {
        (self.peer@, views(self.addresses@))
    }
}

/// The entries of a table, each as plain values.
pub open spec fn entries(table: Seq<RoutingEntry>) -> Seq<(Seq<u8>, Seq<Seq<u8>>)> {
    table.map_values(|e: RoutingEntry| e@)
}

/// The addresses of the first entry of `table` that is about `target`.
pub open spec fn known(target: Seq<u8>, table: Seq<(Seq<u8>, Seq<Seq<u8>>)>) -> Option<
    Seq<Seq<u8>>,
>
    decreases table.len(),
{
    if table.len() == 0 {
        None
    } else if table[0].0 == target {
        Some(table[0].1)
    } else {
        known(target, table.skip(1))
    }
}

/// The reply to a request for `target`. The routing table comes first: where
/// it has an entry for the target, the reply carries that entry's addresses
/// as they stand. Where it has none, the responder answers with the
/// addresses under which it is seen itself, if there are any. Only where
/// there are none either is the target not found.
pub open spec fn answer(
    target: Seq<u8>,
    table: Seq<(Seq<u8>, Seq<Seq<u8>>)>,
    external: Seq<Seq<u8>>,
) -> ResponseView {
    match known(target, table) {
        Some(maddrs) => ResponseView::Found { peer: target, maddrs },
        None => if external.len() > 0 {
            ResponseView::Found { peer: target, maddrs: external }
        } else {
            ResponseView::NotFound { peer: target }
        },
    }
}

/// Looks `target` up in `table`.
pub fn lookup<'a>(target: &PeerIdentity, table: &'a Vec<RoutingEntry>) -> (r: Option<
    &'a RoutingEntry,
>)
    ensures
        match known(target@, entries(table@)) {
            Some(maddrs) => r matches Some(entry) && entry.peer@ == target@ && views(
                entry.addresses@,
            ) == maddrs,
            None => r is None,
        },
{
    let mut i: usize = 0;
    assert(entries(table@).skip(0) =~= entries(table@));
    while i < table.len()
        invariant
            i <= table.len(),
            known(target@, entries(table@)) == known(target@, entries(table@).skip(i as int)),
        decreases table.len() - i,
    {
        let ghost rest = entries(table@).skip(i as int);
        assert(rest[0] == table@[i as int]@);
        if table[i].peer.same(target) {
            return Some(&table[i]);
        }
        assert(rest.skip(1) =~= entries(table@).skip(i + 1));
        i = i + 1;
    }
    None
}

/// Answers `request` from the routing table `table` and the responder's own
/// externally observed addresses `external`. There is exactly one reply to
/// every request, and it names the peer that the request asked about.
pub fn respond(request: &Request, table: &Vec<RoutingEntry>, external: &Vec<NetworkAddress>) -> (r:
    Response)
    ensures
        r@ == answer(request@, entries(table@), views(external@)),
        r@.target() == request@,
{
    match lookup(&request.peer, table) {
        Some(entry) => Response::Found {
            peer: request.peer.clone(),
            maddrs: clone_addresses(&entry.addresses),
        },
        None => {
            if external.len() > 0 {
                Response::Found { peer: request.peer.clone(), maddrs: clone_addresses(external) }
            } else {
                Response::NotFound { peer: request.peer.clone() }
            }
        },
    }
}

} // verus!
