//! The lookup in the distributed table: which key a peer's addresses are
//! stored under, and what the answer to a lookup means for the query.

use crate::bytes::copy;
use crate::outcome::{Failure, OutcomeView, QueryOutcome};
use crate::peer::{views, NetworkAddress, PeerIdentity};
use vstd::prelude::*;

verus! {

/// How a lookup ended.
#[derive(Debug, PartialEq, Eq)]
pub enum LookupOutcome {
    /// A record was located; this is its value.
    Record(Vec<u8>),
    /// The search went through without locating a record.
    Exhausted,
    /// The lookup itself failed.
    Failed,
}

/// A lookup's end as plain values.
pub enum LookupView {
    Record(Seq<u8>),
    Exhausted,
    Failed,
}

impl View for LookupOutcome {
    type V = LookupView;

    open spec fn view(&self) -> LookupView {
        match self {
            LookupOutcome::Record(value) => LookupView::Record(value@),
            LookupOutcome::Exhausted => LookupView::Exhausted,
            LookupOutcome::Failed => LookupView::Failed,
        }
    }
}

/// The key under which the addresses of `target` are stored: the raw bytes
/// of its identity.
pub fn record_key(target: &PeerIdentity) -> (key: Vec<u8>)
    ensures
        key@ == target@,
{
    copy(target.bytes.as_slice())
}

/// The list of addresses that the value of a record holds, each as its
/// bytes, where the value holds one.
pub uninterp spec fn record_addresses(value: Seq<u8>) -> Option<Seq<Seq<u8>>>;

/// Whether `r` holds what `s` says.
pub open spec fn is_parsed(r: Option<Vec<NetworkAddress>>, s: Option<Seq<Seq<u8>>>) -> bool {
    match s {
        Some(list) => r matches Some(found) && views(found@) == list,
        None => r is None,
    }
}

/// Calls `cbor4ii::serde::from_slice` for a `Vec<libp2p::Multiaddr>`. The
/// contract names what comes back: the addresses in their order, each as the
/// bytes that `Multiaddr::to_vec` gives, or nothing where the call fails.
#[verifier::external_body]
fn decode_record(value: &[u8]) -> (r: Option<Vec<NetworkAddress>>)
    ensures
        is_parsed(r, record_addresses(value@)),
{
    match cbor4ii::serde::from_slice::<Vec<libp2p::Multiaddr>>(value) {
        Ok(list) => Some(list.iter().map(|a| NetworkAddress { bytes: a.to_vec() }).collect()),
        Err(_) => None,
    }
}

/// What a record means once its value has been read: its addresses are the
/// result, and a value that holds none fails the query.
pub open spec fn record_outcome(parsed: Option<Seq<Seq<u8>>>) -> OutcomeView {
    match parsed {
        Some(list) => OutcomeView::Resolved(list),
        None => OutcomeView::Failed(Failure::Decode),
    }
}

/// What the end of a lookup means for the query. A record gives its
/// addresses. A search that located no record gives the empty list, which
/// is a result and no failure. A failed lookup fails the query.
pub open spec fn lookup_outcome(end: LookupView) -> OutcomeView {
    match end {
        LookupView::Record(value) => record_outcome(record_addresses(value)),
        LookupView::Exhausted => OutcomeView::Resolved(Seq::empty()),
        LookupView::Failed => OutcomeView::Failed(Failure::Lookup),
    }
}

/// The outcome of a query whose lookup located a record with the value that
/// was read as `parsed`.
pub fn interpret_record(parsed: Option<Vec<NetworkAddress>>) -> (r: QueryOutcome)
    ensures
        match parsed {
            Some(list) => r@ == OutcomeView::Resolved(views(list@)),
            None => r@ == OutcomeView::Failed(Failure::Decode),
        },
{
    match parsed {
        Some(list) => QueryOutcome::Resolved(list),
        None => QueryOutcome::Failed(Failure::Decode),
    }
}

/// The outcome of a query whose lookup ended with `end`.
pub fn interpret(end: &LookupOutcome) -> (r: QueryOutcome)
    ensures
        r@ == lookup_outcome(end@),
{
    match end {
        LookupOutcome::Record(value) => interpret_record(decode_record(value.as_slice())),
        LookupOutcome::Exhausted => {
            let none: Vec<NetworkAddress> = Vec::new();
            assert(views(none@) =~= Seq::<Seq<u8>>::empty());
            QueryOutcome::Resolved(none)
        },
        LookupOutcome::Failed => QueryOutcome::Failed(Failure::Lookup),
    }
}

} // verus!
