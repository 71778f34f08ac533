//! Who a peer is and where it can be reached: the identity, the address,
//! and the identity that an address may end in.

use crate::bytes::{copy, equal};
use vstd::prelude::*;

verus! {

/// The stable identity of a peer, as its raw bytes. Two identities are the
/// same when their bytes are.
#[derive(Debug, PartialEq, Eq)]
pub struct PeerIdentity {
    pub bytes: Vec<u8>,
}

impl View for PeerIdentity {
    type V = Seq<u8>;

    open spec fn view(&self) -> Seq<u8> {
        self.bytes@
    }
}

impl Clone for PeerIdentity {
    fn clone(&self) -> (r: Self)
        ensures
            r@ == self@,
    {
        PeerIdentity { bytes: copy(self.bytes.as_slice()) }
    }
}

impl PeerIdentity {
    /// The identity with the given bytes.
    pub fn from_bytes(bytes: Vec<u8>) -> (r: Self)
        ensures
            r@ == bytes@,
    {
        PeerIdentity { bytes }
    }

    /// Whether `self` and `other` name the same peer.
    pub fn same(&self, other: &PeerIdentity) -> (r: bool)
        ensures
            r == (self@ == other@),
    {
        equal(self.bytes.as_slice(), other.bytes.as_slice())
    }
}

/// One place where a peer can be reached, in the binary form of a
/// self-describing address: a chain of protocols, the last of which may name
/// the peer itself.
#[derive(Debug, PartialEq, Eq)]
pub struct NetworkAddress {
    pub bytes: Vec<u8>,
}

impl View for NetworkAddress {
    type V = Seq<u8>;

    open spec fn view(&self) -> Seq<u8> {
        self.bytes@
    }
}

impl Clone for NetworkAddress {
    fn clone(&self) -> (r: Self)
        ensures
            r@ == self@,
    {
        NetworkAddress { bytes: copy(self.bytes.as_slice()) }
    }
}

impl NetworkAddress {
    /// The address with the given bytes.
    pub fn from_bytes(bytes: Vec<u8>) -> (r: Self)
        ensures
            r@ == bytes@,
    {
        NetworkAddress { bytes }
    }
}

/// The addresses of a list, each as its bytes.
pub open spec fn views(list: Seq<NetworkAddress>) -> Seq<Seq<u8>> {
    list.map_values(|a: NetworkAddress| a@)
}

/// A copy of a list of addresses.
pub fn clone_addresses(list: &Vec<NetworkAddress>) -> (out: Vec<NetworkAddress>)
    ensures
        views(out@) == views(list@),
{
    let mut out: Vec<NetworkAddress> = Vec::new();
    let mut i: usize = 0;
    while i < list.len()
        invariant
            i <= list.len(),
            out.len() == i,
            forall|j: int| 0 <= j < i ==> out@[j]@ == list@[j]@,
        decreases list.len() - i,
    {
        out.push(list[i].clone());
        i = i + 1;
    }
    assert(views(out@) =~= views(list@));
    out
}

/// The last protocol of the address whose binary form is `addr`: `None`
/// where `addr` is not an address or holds no protocol; else whether that
/// protocol names a peer, and the bytes of that peer's identity.
pub uninterp spec fn last_protocol(addr: Seq<u8>) -> Option<Option<Seq<u8>>>;

/// Whether `r` holds what `s` says.
pub open spec fn is_last_protocol(r: Option<Option<Vec<u8>>>, s: Option<Option<Seq<u8>>>) -> bool {
    match s {
        None => r is None,
        Some(None) => r == Some(None::<Vec<u8>>),
        Some(Some(peer)) => r matches Some(Some(found)) && found@ == peer,
    }
}

/// Calls `libp2p::Multiaddr::try_from` on a copy of `addr`, then `iter` and
/// `last` on the address. The contract names what comes back: nothing where
/// the bytes are refused or the address is empty, else the last protocol,
/// kept as the identity's bytes (`PeerId::to_bytes`) where it is the `P2p`
/// protocol and as nothing where it is any other.
#[verifier::external_body]
fn read_last_protocol(addr: &[u8]) -> (r: Option<Option<Vec<u8>>>)
    ensures
        is_last_protocol(r, last_protocol(addr@)),
{
    match libp2p::Multiaddr::try_from(addr.to_vec()) {
        Err(_) => None,
        Ok(address) => match address.iter().last() {
            None => None,
            Some(libp2p::multiaddr::Protocol::P2p(peer)) => Some(Some(peer.to_bytes())),
            Some(_) => Some(None),
        },
    }
}

/// The identity that `addr` ends in, if it ends in one.
pub open spec fn peer_suffix(addr: Seq<u8>) -> Option<Seq<u8>> {
    match last_protocol(addr) {
        Some(Some(peer)) => Some(peer),
        _ => None,
    }
}

/// What the last protocol of an address says of the peer behind it.
pub fn suffix_of(last: Option<Option<Vec<u8>>>) -> (r: Option<PeerIdentity>)
    ensures
        match last {
            Some(Some(peer)) => r matches Some(id) && id@ == peer@,
            _ => r is None,
        },
{
    match last {
        Some(Some(peer)) => Some(PeerIdentity { bytes: peer }),
        _ => None,
    }
}

/// The identity of the peer that `maddr` leads to: the one its last
/// protocol names, if it names one.
pub fn extract_peer_id(maddr: &NetworkAddress) -> (r: Option<PeerIdentity>)
    ensures
        match peer_suffix(maddr@) {
            Some(peer) => r matches Some(id) && id@ == peer,
            None => r is None,
        },
{
    suffix_of(read_last_protocol(maddr.bytes.as_slice()))
}

} // verus!
