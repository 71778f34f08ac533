//! How a query ends: with the addresses it found, or with the reason why it
//! found none.

use crate::peer::{views, NetworkAddress};
use vstd::prelude::*;
use vstd::string::*;

verus! {

/// The families that the reasons of a failure fall into.
#[derive(Clone, Copy, Debug, PartialEq, Eq, Structural)]
pub enum Category {
    /// The call was set up wrongly; nothing was sent.
    Configuration,
    /// A request could not be delivered, or one could not be taken in.
    Transport,
    /// A peer or a record broke the rules of the protocol.
    Protocol,
    /// The lookup in the distributed table failed.
    Lookup,
    /// The peer that was asked knows nothing of the target.
    NotFound,
}

/// Why a request could not be delivered.
#[derive(Clone, Copy, Debug, PartialEq, Eq, Structural)]
pub enum Undelivered {
    /// The peer could not be reached.
    Unreachable,
    /// The peer does not speak the protocol of the exchange.
    Unsupported,
    /// The request was sent and no response came back.
    Lost,
}

/// Why a query failed.
#[derive(Clone, Copy, Debug, PartialEq, Eq, Structural)]
pub enum Failure {
    /// No bootstrap endpoint was given.
    NoBootstrap,
    /// A bootstrap endpoint does not end in the identity of its peer.
    MissingPeerId,
    /// The query was armed before.
    NotIdle,
    /// A bootstrap endpoint could not be connected to.
    Dial,
    /// A request could not be delivered.
    Outbound(Undelivered),
    /// A request that came in could not be read.
    Inbound,
    /// A record was found and does not hold a list of addresses.
    Decode,
    /// A response speaks of another peer than the one asked about.
    TargetMismatch,
    /// The peer that was asked knows nothing of the target.
    NotFound,
    /// The lookup in the distributed table failed.
    Lookup,
}

impl Failure {
    /// The family of this reason.
    pub open spec fn category_spec(self) -> Category {
        match self {
            Failure::NoBootstrap => Category::Configuration,
            Failure::MissingPeerId => Category::Configuration,
            Failure::NotIdle => Category::Configuration,
            Failure::Dial => Category::Transport,
            Failure::Outbound(_) => Category::Transport,
            Failure::Inbound => Category::Transport,
            Failure::Decode => Category::Protocol,
            Failure::TargetMismatch => Category::Protocol,
            Failure::NotFound => Category::NotFound,
            Failure::Lookup => Category::Lookup,
        }
    }

    /// The family of this reason.
    #[verifier::when_used_as_spec(category_spec)]
    pub fn category(self) -> (c: Category)
        ensures
            c == self.category_spec(),
    {
        match self {
            Failure::NoBootstrap => Category::Configuration,
            Failure::MissingPeerId => Category::Configuration,
            Failure::NotIdle => Category::Configuration,
            Failure::Dial => Category::Transport,
            Failure::Outbound(_) => Category::Transport,
            Failure::Inbound => Category::Transport,
            Failure::Decode => Category::Protocol,
            Failure::TargetMismatch => Category::Protocol,
            Failure::NotFound => Category::NotFound,
            Failure::Lookup => Category::Lookup,
        }
    }

    /// Whether a record or a payload could not be decoded.
    pub open spec fn is_decode_failure(self) -> bool {
        self is Decode
    }

    /// The reason in words.
    pub open spec fn text(self) -> Seq<char> {
        match self {
            Failure::NoBootstrap => "No bootstrap endpoint"@,
            Failure::MissingPeerId => "Bootstrap endpoint without a peer identity"@,
            Failure::NotIdle => "Query already armed"@,
            Failure::Dial => "Bootstrap endpoint not connected"@,
            Failure::Outbound(Undelivered::Unreachable) => "Peer unreachable"@,
            Failure::Outbound(Undelivered::Unsupported) => "Protocol not supported"@,
            Failure::Outbound(Undelivered::Lost) => "Request not answered"@,
            Failure::Inbound => "Inbound failure"@,
            Failure::Decode => "Record could not be decoded"@,
            Failure::TargetMismatch => "Response for another peer"@,
            Failure::NotFound => "Not found"@,
            Failure::Lookup => "Lookup failed"@,
        }
    }

    /// The reason in words, for a caller that takes errors as text.
    pub fn message(self) -> (r: String)
        ensures
            r@ == self.text(),
    {
        match self {
            Failure::NoBootstrap => String::from_str("No bootstrap endpoint"),
            Failure::MissingPeerId => String::from_str(
                "Bootstrap endpoint without a peer identity",
            ),
            Failure::NotIdle => String::from_str("Query already armed"),
            Failure::Dial => String::from_str("Bootstrap endpoint not connected"),
            Failure::Outbound(Undelivered::Unreachable) => String::from_str("Peer unreachable"),
            Failure::Outbound(Undelivered::Unsupported) => String::from_str(
                "Protocol not supported",
            ),
            Failure::Outbound(Undelivered::Lost) => String::from_str("Request not answered"),
            Failure::Inbound => String::from_str("Inbound failure"),
            Failure::Decode => String::from_str("Record could not be decoded"),
            Failure::TargetMismatch => String::from_str("Response for another peer"),
            Failure::NotFound => String::from_str("Not found"),
            Failure::Lookup => String::from_str("Lookup failed"),
        }
    }
}

/// The result of a query. There is no third case, and once a query has its
/// outcome it is over.
#[derive(Debug, PartialEq, Eq)]
pub enum QueryOutcome {
    /// The addresses that were found; there may be none.
    Resolved(Vec<NetworkAddress>),
    /// The query failed.
    Failed(Failure),
}

/// An outcome as plain values.
pub enum OutcomeView {
    Resolved(Seq<Seq<u8>>),
    Failed(Failure),
}

impl View for QueryOutcome {
    type V = OutcomeView;

    open spec fn view(&self) -> OutcomeView {
        match self {
            QueryOutcome::Resolved(list) => OutcomeView::Resolved(views(list@)),
            QueryOutcome::Failed(failure) => OutcomeView::Failed(*failure),
        }
    }
}

} // verus!
