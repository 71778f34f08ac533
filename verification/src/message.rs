//! The two messages of the exchange: the request for a peer's addresses and
//! the response to it.

use crate::peer::{views, NetworkAddress, PeerIdentity};
use vstd::prelude::*;

verus! {

/// Asks for the addresses of `peer`.
#[derive(Debug, PartialEq, Eq)]
pub struct Request {
    pub peer: PeerIdentity,
}

impl View for Request {
    type V = Seq<u8>;

    /// A request is the identity it asks about.
    open spec fn view(&self) -> Seq<u8> {
        self.peer@
    }
}

/// The answer to a request: the addresses known for the peer asked about,
/// or that nothing is known of it. Either way it names that peer.
#[derive(Debug, PartialEq, Eq)]
pub enum Response {
    Found { peer: PeerIdentity, maddrs: Vec<NetworkAddress> },
    NotFound { peer: PeerIdentity },
}

/// A response as plain values.
pub enum ResponseView {
    Found { peer: Seq<u8>, maddrs: Seq<Seq<u8>> },
    NotFound { peer: Seq<u8> },
}

impl View for Response {
    type V = ResponseView;

    open spec fn view(&self) -> ResponseView {
        match self {
            Response::Found { peer, maddrs } => ResponseView::Found {
                peer: peer@,
                maddrs: views(maddrs@),
            },
            Response::NotFound { peer } => ResponseView::NotFound { peer: peer@ },
        }
    }
}

impl ResponseView {
    /// The peer that the response speaks of.
    pub open spec fn target(self) -> Seq<u8> {
        match self {
            ResponseView::Found { peer, .. } => peer,
            ResponseView::NotFound { peer } => peer,
        }
    }
}

impl Response {
    /// The peer that the response speaks of.
    pub fn target(&self) -> (r: &PeerIdentity)
        ensures
            r@ == self@.target(),
    {
        match self {
            Response::Found { peer, .. } => peer,
            Response::NotFound { peer } => peer,
        }
    }
}

} // verus!
