//! The query as a caller sees it that speaks in text: endpoints and target
//! come as strings, and the answer goes back as strings, one for each
//! address.

use crate::bytes::copy;
use crate::orchestrator::{
    event_views, resolution, resolve, Ending, EndingView, Event, EventView, Strategy,
};
use crate::outcome::{OutcomeView, QueryOutcome};
use crate::peer::{views, NetworkAddress, PeerIdentity};
use vstd::prelude::*;
use vstd::string::*;

verus! {

/// The address that a text denotes, as its bytes, or the words in which the
/// text is refused.
pub uninterp spec fn address_of_text(text: Seq<char>) -> Result<Seq<u8>, Seq<char>>;

/// The identity that a text denotes, as its bytes, or the words in which
/// the text is refused.
pub uninterp spec fn peer_of_text(text: Seq<char>) -> Result<Seq<u8>, Seq<char>>;

/// The text of the address with the bytes `addr`, where `addr` is an
/// address.
pub uninterp spec fn text_of_address(addr: Seq<u8>) -> Option<Seq<char>>;

/// Whether `r` holds what `s` says.
pub open spec fn is_read(r: Result<Vec<u8>, String>, s: Result<Seq<u8>, Seq<char>>) -> bool {
    match s {
        Ok(bytes) => r matches Ok(found) && found@ == bytes,
        Err(words) => r matches Err(said) && said@ == words,
    }
}

/// Calls `str::parse` for a `libp2p::Multiaddr`, which is the address
/// type's `from_str`. The contract names what comes back: the address as
/// the bytes that `Multiaddr::to_vec` gives, or the error as its
/// `to_string`.
#[verifier::external_body]
fn read_address(text: &str) -> (r: Result<Vec<u8>, String>)
    ensures
        is_read(r, address_of_text(text@)),
{
    match text.parse::<libp2p::Multiaddr>() {
        Ok(address) => Ok(address.to_vec()),
        Err(e) => Err(e.to_string()),
    }
}

/// Calls `str::parse` for a `libp2p::PeerId`, which is the identity type's
/// `from_str`. The contract names what comes back: the identity as the
/// bytes that `PeerId::to_bytes` gives, or the error as its `to_string`.
#[verifier::external_body]
fn read_peer(text: &str) -> (r: Result<Vec<u8>, String>)
    ensures
        is_read(r, peer_of_text(text@)),
{
    match text.parse::<libp2p::PeerId>() {
        Ok(peer) => Ok(peer.to_bytes()),
        Err(e) => Err(e.to_string()),
    }
}

/// Calls `libp2p::Multiaddr::try_from` on a copy of `addr`, then
/// `to_string` on the address. The contract names what comes back: the
/// text, or nothing where the bytes are refused.
#[verifier::external_body]
fn write_address(addr: &[u8]) -> (r: Option<String>)
    ensures
        match text_of_address(addr@) {
            Some(text) => r matches Some(found) && found@ == text,
            None => r is None,
        },
{
    match libp2p::Multiaddr::try_from(addr.to_vec()) {
        Ok(address) => Some(address.to_string()),
        Err(_) => None,
    }
}

/// The texts of a list of strings.
pub open spec fn texts(list: Seq<String>) -> Seq<Seq<char>> {
    list.map_values(|s: String| s@)
}

/// What reading a text gave, as plain values.
pub open spec fn read_view(r: Result<Vec<u8>, String>) -> Result<Seq<u8>, Seq<char>> {
    match r {
        Ok(bytes) => Ok(bytes@),
        Err(words) => Err(words@),
    }
}

/// What reading a list of texts gave, as plain values.
pub open spec fn read_views(list: Seq<Result<Vec<u8>, String>>) -> Seq<
    Result<Seq<u8>, Seq<char>>,
> {
    list.map_values(|r: Result<Vec<u8>, String>| read_view(r))
}

/// The addresses that were read, in their order, or the first refusal.
pub open spec fn gathered(read: Seq<Result<Seq<u8>, Seq<char>>>) -> Result<
    Seq<Seq<u8>>,
    Seq<char>,
>
    decreases read.len(),
{
    if read.len() == 0 {
        Ok(Seq::empty())
    } else {
        match gathered(read.drop_last()) {
            Err(words) => Err(words),
            Ok(front) => match read.last() {
                Err(words) => Err(words),
                Ok(bytes) => Ok(front.push(bytes)),
            },
        }
    }
}

/// The addresses that a list of texts denotes, or the refusal of the first
/// text that denotes none.
pub open spec fn addresses_of_texts(list: Seq<Seq<char>>) -> Result<Seq<Seq<u8>>, Seq<char>> {
    gathered(list.map_values(|t: Seq<char>| address_of_text(t)))
}

/// Whether `r` holds what `s` says.
pub open spec fn is_read_list(
    r: Result<Vec<NetworkAddress>, String>,
    s: Result<Seq<Seq<u8>>, Seq<char>>,
) -> bool {
    match s {
        Ok(list) => r matches Ok(found) && views(found@) == list,
        Err(words) => r matches Err(said) && said@ == words,
    }
}

/// A refusal among the first `k` readings is the refusal of the whole list.
pub proof fn lemma_refused_stays(read: Seq<Result<Seq<u8>, Seq<char>>>, k: int)
    requires
        0 <= k <= read.len(),
        gathered(read.subrange(0, k)) is Err,
    ensures
        gathered(read) == gathered(read.subrange(0, k)),
    decreases read.len() - k,
{
    if k < read.len() {
        let longer = read.subrange(0, k + 1);
        assert(longer.drop_last() =~= read.subrange(0, k));
        lemma_refused_stays(read, k + 1);
    } else {
        assert(read.subrange(0, k) =~= read);
    }
}

/// Puts the addresses that were read into a list. The first text that was
/// refused decides: its refusal is the error.
pub fn gather(read: &Vec<Result<Vec<u8>, String>>) -> (r: Result<Vec<NetworkAddress>, String>)
    ensures
        is_read_list(r, gathered(read_views(read@))),
{
    let mut out: Vec<NetworkAddress> = Vec::new();
    let mut i: usize = 0;
    let ghost all = read_views(read@);
    assert(views(out@) =~= Seq::<Seq<u8>>::empty());
    while i < read.len()
        invariant
            i <= read.len(),
            all == read_views(read@),
            gathered(all.subrange(0, i as int)) == Ok::<Seq<Seq<u8>>, Seq<char>>(views(out@)),
        decreases read.len() - i,
    {
        let ghost next = all.subrange(0, i + 1);
        assert(next.drop_last() =~= all.subrange(0, i as int));
        assert(next.last() == read_view(read@[i as int]));
        match &read[i] {
            Err(words) => {
                proof {
                    lemma_refused_stays(all, i + 1);
                }
                return Err(words.clone());
            },
            Ok(bytes) => {
                let ghost before = views(out@);
                out.push(NetworkAddress::from_bytes(copy(bytes.as_slice())));
                assert(views(out@) =~= before.push(bytes@));
            },
        }
        i = i + 1;
    }
    assert(all.subrange(0, i as int) =~= all);
    Ok(out)
}

/// Reads every text of `bootnodes` as an address. The first text that is
/// none decides: its refusal is the error.
pub fn read_bootnodes(bootnodes: &Vec<String>) -> (r: Result<Vec<NetworkAddress>, String>)
    ensures
        is_read_list(r, addresses_of_texts(texts(bootnodes@))),
{
    let mut read: Vec<Result<Vec<u8>, String>> = Vec::new();
    let mut i: usize = 0;
    while i < bootnodes.len()
        invariant
            i <= bootnodes.len(),
            read.len() == i,
            forall|j: int|
                0 <= j < i ==> read_view(#[trigger] read@[j]) == address_of_text(bootnodes@[j]@),
        decreases bootnodes.len() - i,
    {
        let one = read_address(bootnodes[i].as_str());
        read.push(one);
        i = i + 1;
    }
    assert(read_views(read@) =~= texts(bootnodes@).map_values(
        |t: Seq<char>| address_of_text(t),
    ));
    gather(&read)
}

/// The texts that were written, in their order, where every address had
/// one.
pub open spec fn all_written(written: Seq<Option<Seq<char>>>) -> Option<Seq<Seq<char>>> {
    if forall|i: int| 0 <= i < written.len() ==> (#[trigger] written[i]) is Some {
        Some(written.map_values(|t: Option<Seq<char>>| t.unwrap()))
    } else {
        None
    }
}

/// The texts of a list of addresses, one text for each address and in the
/// order of the addresses, or nothing where one of them is no address.
pub open spec fn rendered(list: Seq<Seq<u8>>) -> Option<Seq<Seq<char>>> {
    all_written(list.map_values(|a: Seq<u8>| text_of_address(a)))
}

/// What writing an address gave, as plain values.
pub open spec fn written_view(t: Option<String>) -> Option<Seq<char>> {
    match t {
        Some(text) => Some(text@),
        None => None,
    }
}

/// What writing a list of addresses gave, as plain values.
pub open spec fn written_views(list: Seq<Option<String>>) -> Seq<Option<Seq<char>>> {
    list.map_values(|t: Option<String>| written_view(t))
}

/// Whether `r` holds what `s` says.
pub open spec fn is_written(r: Option<Vec<String>>, s: Option<Seq<Seq<char>>>) -> bool {
    match s {
        Some(list) => r matches Some(found) && texts(found@) == list,
        None => r is None,
    }
}

/// Puts the texts that were written into a list, each text apart. Where an
/// address had no text, there is no list.
pub fn collect(written: &Vec<Option<String>>) -> (r: Option<Vec<String>>)
    ensures
        is_written(r, all_written(written_views(written@))),
{
    let mut out: Vec<String> = Vec::new();
    let mut i: usize = 0;
    while i < written.len()
        invariant
            i <= written.len(),
            out.len() == i,
            forall|j: int| 0 <= j < i ==> written_view(written@[j]) == Some((#[trigger] out@[j])@),
        decreases written.len() - i,
    {
        match &written[i] {
            None => {
                assert(written_views(written@)[i as int] is None);
                return None;
            },
            Some(text) => {
                out.push(text.clone());
            },
        }
        i = i + 1;
    }
    assert forall|j: int| 0 <= j < written.len() implies (#[trigger] written_views(
        written@,
    )[j]) is Some by {
        assert(written_view(written@[j]) == Some(out@[j]@));
    }
    assert(texts(out@) =~= written_views(written@).map_values(
        |t: Option<Seq<char>>| t.unwrap(),
    ));
    Some(out)
}

/// Writes each address of a list as a text.
pub fn render(addresses: &Vec<NetworkAddress>) -> (r: Option<Vec<String>>)
    ensures
        is_written(r, rendered(views(addresses@))),
{
    let mut written: Vec<Option<String>> = Vec::new();
    let mut i: usize = 0;
    while i < addresses.len()
        invariant
            i <= addresses.len(),
            written.len() == i,
            forall|j: int|
                0 <= j < i ==> written_view(#[trigger] written@[j]) == text_of_address(
                    addresses@[j]@,
                ),
        decreases addresses.len() - i,
    {
        let one = write_address(addresses[i].bytes.as_slice());
        written.push(one);
        i = i + 1;
    }
    assert(written_views(written@) =~= views(addresses@).map_values(
        |a: Seq<u8>| text_of_address(a),
    ));
    collect(&written)
}

/// What a resolution that ended with `ending` gives a caller that speaks in
/// text: the texts of the addresses, one for each and in their order, or the
/// reason in words why there are none.
pub open spec fn ending_text(ending: EndingView) -> Result<Seq<Seq<char>>, Seq<char>> {
    match ending {
        EndingView::Finished(OutcomeView::Resolved(list)) => match rendered(list) {
            Some(all) => Ok(all),
            None => Err("Address without a text"@),
        },
        EndingView::Finished(OutcomeView::Failed(failure)) => Err(failure.text()),
        EndingView::Cancelled => Err("Cancelled"@),
        EndingView::Waiting => Err("No outcome"@),
    }
}

/// Whether `r` holds what `s` says.
pub open spec fn is_text(
    r: Result<Vec<String>, String>,
    s: Result<Seq<Seq<char>>, Seq<char>>,
) -> bool {
    match s {
        Ok(list) => r matches Ok(found) && texts(found@) == list,
        Err(words) => r matches Err(said) && said@ == words,
    }
}

/// Puts the ending of a resolution into text.
pub fn report(ending: &Ending) -> (r: Result<Vec<String>, String>)
    ensures
        is_text(r, ending_text(ending@)),
{
    match ending {
        Ending::Finished(QueryOutcome::Resolved(list)) => match render(list) {
            Some(all) => Ok(all),
            None => Err(String::from_str("Address without a text")),
        },
        Ending::Finished(QueryOutcome::Failed(failure)) => Err(failure.message()),
        Ending::Cancelled => Err(String::from_str("Cancelled")),
        Ending::Waiting => Err(String::from_str("No outcome")),
    }
}

/// A resolution that found addresses gives as many texts as addresses, and
/// each text is the text of the address in its place: every address can be
/// told from the answer.
pub proof fn lemma_addresses_stay_apart(list: Seq<Seq<u8>>)
    requires
        rendered(list) is Some,
    ensures
        ending_text(EndingView::Finished(OutcomeView::Resolved(list))) matches Ok(all) && all.len()
            == list.len() && forall|i: int|
            0 <= i < list.len() ==> text_of_address(list[i]) == Some(#[trigger] all[i]),
{
}

/// What `perform_query` returns. Texts that are no addresses, or a query
/// that is no identity, are refused before anything else is looked at.
pub open spec fn query_text(
    strategy: Strategy,
    bootnodes: Seq<Seq<char>>,
    query: Seq<char>,
    events: Seq<EventView>,
) -> Result<Seq<Seq<char>>, Seq<char>> {
    match addresses_of_texts(bootnodes) {
        Err(words) => Err(words),
        Ok(addresses) => match peer_of_text(query) {
            Err(words) => Err(words),
            Ok(target) => ending_text(resolution(strategy, addresses, target, events).1),
        },
    }
}

/// Resolves the addresses of the peer that the text `query` denotes,
/// through the bootstrap endpoints that the texts `bootnodes` denote, given
/// everything that happens as `events`. The answer is the text of each
/// address found, in the order in which they were found; every error is put
/// into words.
pub fn perform_query(
    strategy: Strategy,
    bootnodes: &Vec<String>,
    query: &str,
    events: &Vec<Event>,
) -> (r: Result<Vec<String>, String>)
    ensures
        is_text(r, query_text(strategy, texts(bootnodes@), query@, event_views(events@))),
{
    let addresses = match read_bootnodes(bootnodes) {
        Err(words) => {
            return Err(words);
        },
        Ok(addresses) => addresses,
    };
    let target = match read_peer(query) {
        Err(words) => {
            return Err(words);
        },
        Ok(bytes) => PeerIdentity::from_bytes(bytes),
    };
    let resolution = resolve(strategy, addresses, target, events);
    report(&resolution.ending)
}

} // verus!
