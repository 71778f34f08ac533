//! The query: one resolution from arming to its outcome. The query decides;
//! its caller acts. The caller performs the commands that the query hands
//! out and reports what happens, one event at a time, in the order in which
//! it happens, until the query is over.

use crate::dht::{interpret, lookup_outcome, record_key, LookupOutcome, LookupView};
use crate::exchange::Exchange;
use crate::message::{Request, Response, ResponseView};
use crate::outcome::{Failure, OutcomeView, QueryOutcome, Undelivered};
use crate::peer::{
    clone_addresses, extract_peer_id, peer_suffix, views, NetworkAddress, PeerIdentity,
};
use vstd::prelude::*;

verus! {

/// The two ways to resolve a peer's addresses.
#[derive(Clone, Copy, Debug, PartialEq, Eq, Structural)]
pub enum Strategy {
    /// Look the peer's record up in the distributed table.
    Lookup,
    /// Ask the peers that connections are established to.
    Exchange,
}

/// Where a query stands.
#[derive(Clone, Copy, Debug, PartialEq, Eq, Structural)]
pub enum Phase {
    /// Nothing has been asked yet.
    Idle,
    /// The endpoints and the target are accepted; nothing has been sent.
    Armed,
    /// The commands are out; the query waits for what happens.
    Awaiting,
    /// The query is over.
    Terminal,
}

/// A bootstrap endpoint that was accepted: the address and the peer behind
/// it.
#[derive(Debug, PartialEq, Eq)]
pub struct Endpoint {
    pub peer: PeerIdentity,
    pub address: NetworkAddress,
}

impl View for Endpoint {
    type V = (Seq<u8>, Seq<u8>);

    open spec fn view(&self) -> (Seq<u8>, Seq<u8>) {
        (self.peer@, self.address@)
    }
}

/// What the caller is to do for the query.
#[derive(Debug, PartialEq, Eq)]
pub enum Command {
    /// Connect to `peer` at `address`.
    Dial { peer: PeerIdentity, address: NetworkAddress },
    /// Look up the record stored under `key`.
    GetRecord { key: Vec<u8> },
    /// Send `request` to `peer`, as the request `id`.
    SendRequest { id: u64, peer: PeerIdentity, request: Request },
}

/// A command as plain values.
pub enum CommandView {
    Dial { peer: Seq<u8>, address: Seq<u8> },
    GetRecord { key: Seq<u8> },
    SendRequest { id: u64, peer: Seq<u8>, target: Seq<u8> },
}

impl View for Command {
    type V = CommandView;

    open spec fn view(&self) -> CommandView {
        match self {
            Command::Dial { peer, address } => CommandView::Dial { peer: peer@, address: address@ },
            Command::GetRecord { key } => CommandView::GetRecord { key: key@ },
            Command::SendRequest { id, peer, request } => CommandView::SendRequest {
                id: *id,
                peer: peer@,
                target: request@,
            },
        }
    }
}

/// What happened.
#[derive(Debug, PartialEq, Eq)]
pub enum Event {
    /// A connection to `peer` stands.
    ConnectionEstablished { peer: PeerIdentity },
    /// No connection could be made to `remote`; where it is not known to
    /// whom, there is none.
    DialFailure { remote: Option<PeerIdentity> },
    /// The response to the request `id` arrived.
    Response { id: u64, response: Response },
    /// The request `id` could not be delivered.
    OutboundFailure { id: u64, reason: Undelivered },
    /// A request that came in could not be read.
    InboundFailure,
    /// The lookup ended.
    Lookup(LookupOutcome),
    /// The caller wants the query to stop.
    Cancelled,
    /// Anything else. It is of no concern to the query.
    Ignored,
}

/// An event as plain values.
pub enum EventView {
    ConnectionEstablished { peer: Seq<u8> },
    DialFailure { remote: Option<Seq<u8>> },
    Response { id: u64, response: ResponseView },
    OutboundFailure { id: u64, reason: Undelivered },
    InboundFailure,
    Lookup(LookupView),
    Cancelled,
    Ignored,
}

impl View for Event {
    type V = EventView;

    open spec fn view(&self) -> EventView {
        match self {
            Event::ConnectionEstablished { peer } => EventView::ConnectionEstablished {
                peer: peer@,
            },
            Event::DialFailure { remote } => EventView::DialFailure {
                remote: match remote {
                    Some(peer) => Some(peer@),
                    None => None,
                },
            },
            Event::Response { id, response } => EventView::Response {
                id: *id,
                response: response@,
            },
            Event::OutboundFailure { id, reason } => EventView::OutboundFailure {
                id: *id,
                reason: *reason,
            },
            Event::InboundFailure => EventView::InboundFailure,
            Event::Lookup(end) => EventView::Lookup(end@),
            Event::Cancelled => EventView::Cancelled,
            Event::Ignored => EventView::Ignored,
        }
    }
}

/// What the query makes of an event.
#[derive(Debug, PartialEq, Eq)]
pub enum Reaction {
    /// Nothing to do; the query goes on.
    Wait,
    /// The caller is to perform the command; the query goes on.
    Perform(Command),
    /// The query is over, with this outcome.
    Done(QueryOutcome),
    /// The query is over without an outcome: it was cancelled.
    Stopped,
}

/// A reaction as plain values.
pub enum ReactionView {
    Wait,
    Perform(CommandView),
    Done(OutcomeView),
    Stopped,
}

impl View for Reaction {
    type V = ReactionView;

    open spec fn view(&self) -> ReactionView {
        match self {
            Reaction::Wait => ReactionView::Wait,
            Reaction::Perform(command) => ReactionView::Perform(command@),
            Reaction::Done(outcome) => ReactionView::Done(outcome@),
            Reaction::Stopped => ReactionView::Stopped,
        }
    }
}

/// A query as plain values.
pub struct QueryView {
    pub phase: Phase,
    pub strategy: Strategy,
    /// The peer whose addresses are asked for.
    pub target: Seq<u8>,
    /// The accepted endpoints, each as the peer and the address.
    pub endpoints: Seq<(Seq<u8>, Seq<u8>)>,
    /// The requests under way: identifier and peer.
    pub pending: Map<u64, Seq<u8>>,
    /// The identifier of the next request.
    pub next_id: u64,
}

/// The identities that a list of addresses end in.
pub open spec fn suffixes(addresses: Seq<Seq<u8>>) -> Seq<Option<Seq<u8>>> {
    addresses.map_values(|a: Seq<u8>| peer_suffix(a))
}

/// Whether a query may be armed with endpoints that end in `peers`: there
/// is at least one endpoint, and every endpoint ends in an identity.
pub open spec fn acceptance(peers: Seq<Option<Seq<u8>>>) -> Result<(), Failure> {
    if peers.len() == 0 {
        Err(Failure::NoBootstrap)
    } else if exists|i: int| 0 <= i < peers.len() && peers[i] is None {
        Err(Failure::MissingPeerId)
    } else {
        Ok(())
    }
}

/// The endpoints made of addresses and the peers they end in.
pub open spec fn paired(addresses: Seq<Seq<u8>>) -> Seq<(Seq<u8>, Seq<u8>)> {
    addresses.map_values(|a: Seq<u8>| (peer_suffix(a).unwrap(), a))
}

/// Arming: an idle query that is given acceptable endpoints takes them and
/// the target and is armed. Any other query stays as it is, and the call
/// fails.
pub open spec fn armed(q: QueryView, addresses: Seq<Seq<u8>>, target: Seq<u8>) -> (
    QueryView,
    Result<(), Failure>,
) {
    if q.phase != Phase::Idle {
        (q, Err(Failure::NotIdle))
    } else {
        match acceptance(suffixes(addresses)) {
            Err(failure) => (q, Err(failure)),
            Ok(_) => (
                QueryView { phase: Phase::Armed, target, endpoints: paired(addresses), ..q },
                Ok(()),
            ),
        }
    }
}

/// The command to dial each endpoint, in the order of the endpoints.
pub open spec fn dials(endpoints: Seq<(Seq<u8>, Seq<u8>)>) -> Seq<CommandView> {
    endpoints.map_values(
        |e: (Seq<u8>, Seq<u8>)| CommandView::Dial { peer: e.0, address: e.1 },
    )
}

/// Starting: an armed query hands out the command to dial every endpoint
/// and, where it looks the target up, the command to get the record stored
/// under the target's identity; then it waits. Any other query hands out
/// nothing and stays as it is.
pub open spec fn started(q: QueryView) -> (QueryView, Seq<CommandView>) {
    if q.phase != Phase::Armed {
        (q, Seq::empty())
    } else {
        (
            QueryView { phase: Phase::Awaiting, ..q },
            match q.strategy {
                Strategy::Lookup => dials(q.endpoints).push(
                    CommandView::GetRecord { key: q.target },
                ),
                Strategy::Exchange => dials(q.endpoints),
            },
        )
    }
}

/// What a response means to a query for `target`. A response that speaks
/// of another peer breaks the protocol, and nothing it carries is used.
pub open spec fn response_outcome(target: Seq<u8>, response: ResponseView) -> OutcomeView {
    if response.target() != target {
        OutcomeView::Failed(Failure::TargetMismatch)
    } else {
        match response {
            ResponseView::Found { maddrs, .. } => OutcomeView::Resolved(maddrs),
            ResponseView::NotFound { .. } => OutcomeView::Failed(Failure::NotFound),
        }
    }
}

/// Whether `peer` is the peer behind one of the endpoints.
pub open spec fn is_endpoint(endpoints: Seq<(Seq<u8>, Seq<u8>)>, peer: Seq<u8>) -> bool {
    exists|i: int| 0 <= i < endpoints.len() && (#[trigger] endpoints[i]).0 == peer
}

/// The query `q`, over.
pub open spec fn ended(q: QueryView) -> QueryView {
    QueryView { phase: Phase::Terminal, ..q }
}

/// One step of a query: the query after the event, and its reaction.
///
/// Only a waiting query reacts. A cancellation stops it. A connection to
/// the peer behind a bootstrap endpoint that could not be made fails it, and
/// nothing is sent. Where it asks
/// peers, every connection that is established gets one request, under a
/// new identifier; the response or the failure of a request under way ends
/// the query and uses the identifier up, and one for an identifier that is
/// not under way is passed over. Where it looks the target up, the end of
/// the lookup ends the query. Everything else is passed over.
pub open spec fn step(q: QueryView, event: EventView) -> (QueryView, ReactionView) {
    if q.phase != Phase::Awaiting {
        (q, ReactionView::Wait)
    } else {
        match event {
            EventView::Cancelled => (ended(q), ReactionView::Stopped),
            EventView::DialFailure { remote } => if remote matches Some(peer) && is_endpoint(
                q.endpoints,
                peer,
            ) {
                (ended(q), ReactionView::Done(OutcomeView::Failed(Failure::Dial)))
            } else {
                (q, ReactionView::Wait)
            },
            EventView::ConnectionEstablished { peer } => if q.strategy == Strategy::Exchange
                && q.next_id < u64::MAX {
                (
                    QueryView {
                        pending: q.pending.insert(q.next_id, peer),
                        next_id: (q.next_id + 1) as u64,
                        ..q
                    },
                    ReactionView::Perform(
                        CommandView::SendRequest { id: q.next_id, peer, target: q.target },
                    ),
                )
            } else {
                (q, ReactionView::Wait)
            },
            EventView::Response { id, response } => if q.strategy == Strategy::Exchange
                && q.pending.contains_key(id) {
                (
                    ended(QueryView { pending: q.pending.remove(id), ..q }),
                    ReactionView::Done(response_outcome(q.target, response)),
                )
            } else {
                (q, ReactionView::Wait)
            },
            EventView::OutboundFailure { id, reason } => if q.strategy == Strategy::Exchange
                && q.pending.contains_key(id) {
                (
                    ended(QueryView { pending: q.pending.remove(id), ..q }),
                    ReactionView::Done(OutcomeView::Failed(Failure::Outbound(reason))),
                )
            } else {
                (q, ReactionView::Wait)
            },
            EventView::InboundFailure => if q.strategy == Strategy::Exchange {
                (ended(q), ReactionView::Done(OutcomeView::Failed(Failure::Inbound)))
            } else {
                (q, ReactionView::Wait)
            },
            EventView::Lookup(end) => if q.strategy == Strategy::Lookup {
                (ended(q), ReactionView::Done(lookup_outcome(end)))
            } else {
                (q, ReactionView::Wait)
            },
            EventView::Ignored => (q, ReactionView::Wait),
        }
    }
}

/// The outcome of a query that received the response `response`.
pub fn judge(target: &PeerIdentity, response: &Response) -> (r: QueryOutcome)
    ensures
        r@ == response_outcome(target@, response@),
{
    if !response.target().same(target) {
        return QueryOutcome::Failed(Failure::TargetMismatch);
    }
    match response {
        Response::Found { maddrs, .. } => QueryOutcome::Resolved(clone_addresses(maddrs)),
        Response::NotFound { .. } => QueryOutcome::Failed(Failure::NotFound),
    }
}

/// The peers of identities that may be missing, as plain values.
pub open spec fn peer_views(peers: Seq<Option<PeerIdentity>>) -> Seq<Option<Seq<u8>>> {
    peers.map_values(
        |p: Option<PeerIdentity>|
            match p {
                Some(peer) => Some(peer@),
                None => None,
            },
    )
}

/// Whether endpoints that end in `peers` are acceptable.
pub fn check_endpoints(peers: &Vec<Option<PeerIdentity>>) -> (r: Result<(), Failure>)
    ensures
        r == acceptance(peer_views(peers@)),
{
    if peers.len() == 0 {
        return Err(Failure::NoBootstrap);
    }
    let mut i: usize = 0;
    while i < peers.len()
        invariant
            i <= peers.len(),
            forall|j: int| 0 <= j < i ==> peer_views(peers@)[j] is Some,
        decreases peers.len() - i,
    {
        if peers[i].is_none() {
            assert(peer_views(peers@)[i as int] is None);
            return Err(Failure::MissingPeerId);
        }
        i = i + 1;
    }
    Ok(())
}

/// The identity that each address of `addresses` ends in.
pub fn endpoint_peers(addresses: &Vec<NetworkAddress>) -> (peers: Vec<Option<PeerIdentity>>)
    ensures
        peer_views(peers@) == suffixes(views(addresses@)),
{
    let mut peers: Vec<Option<PeerIdentity>> = Vec::new();
    let mut i: usize = 0;
    while i < addresses.len()
        invariant
            i <= addresses.len(),
            peers.len() == i,
            forall|j: int|
                0 <= j < i ==> peer_views(peers@)[j] == peer_suffix(#[trigger] addresses@[j]@),
        decreases addresses.len() - i,
    {
        let peer = extract_peer_id(&addresses[i]);
        peers.push(peer);
        i = i + 1;
    }
    assert(peer_views(peers@) =~= suffixes(views(addresses@)));
    peers
}

/// The endpoints of a list, each as plain values.
pub open spec fn endpoint_views(endpoints: Seq<Endpoint>) -> Seq<(Seq<u8>, Seq<u8>)> {
    endpoints.map_values(|e: Endpoint| e@)
}

/// The commands of a list, each as plain values.
pub open spec fn command_views(commands: Seq<Command>) -> Seq<CommandView> {
    commands.map_values(|c: Command| c@)
}

/// The events of a list, each as plain values.
pub open spec fn event_views(events: Seq<Event>) -> Seq<EventView> {
    events.map_values(|e: Event| e@)
}

/// One resolution of one peer's addresses.
#[derive(Debug)]
pub struct Orchestrator {
    phase: Phase,
    strategy: Strategy,
    target: PeerIdentity,
    endpoints: Vec<Endpoint>,
    exchange: Exchange,
}

impl View for Orchestrator {
    type V = QueryView;

    closed spec fn view(&self) -> QueryView {
        QueryView {
            phase: self.phase,
            strategy: self.strategy,
            target: self.target@,
            endpoints: endpoint_views(self.endpoints@),
            pending: self.exchange.pending(),
            next_id: self.exchange.next_id(),
        }
    }
}

impl Orchestrator {
    /// An idle query that will resolve by `strategy`.
    pub fn new(strategy: Strategy) -> (r: Self)
        ensures
            r@ == (QueryView {
                phase: Phase::Idle,
                strategy,
                target: Seq::empty(),
                endpoints: Seq::empty(),
                pending: Map::empty(),
                next_id: 0,
            }),
    {
        let r = Orchestrator {
            phase: Phase::Idle,
            strategy,
            target: PeerIdentity::from_bytes(Vec::new()),
            endpoints: Vec::new(),
            exchange: Exchange::new(),
        };
        assert(endpoint_views(r.endpoints@) =~= Seq::<(Seq<u8>, Seq<u8>)>::empty());
        r
    }

    /// Where the query stands.
    pub fn phase(&self) -> (p: Phase)
        ensures
            p == self@.phase,
    {
        self.phase
    }

    /// Whether `peer` is the peer behind one of the accepted endpoints.
    pub fn leads_to(&self, peer: &PeerIdentity) -> (r: bool)
        ensures
            r == is_endpoint(self@.endpoints, peer@),
    {
        let mut i: usize = 0;
        while i < self.endpoints.len()
            invariant
                i <= self.endpoints.len(),
                forall|j: int| 0 <= j < i ==> self.endpoints@[j].peer@ != peer@,
            decreases self.endpoints.len() - i,
        {
            if self.endpoints[i].peer.same(peer) {
                assert(endpoint_views(self.endpoints@)[i as int].0 == peer@);
                return true;
            }
            i = i + 1;
        }
        assert forall|j: int| 0 <= j < self.endpoints@.len() implies (#[trigger] endpoint_views(
            self.endpoints@,
        )[j]).0 != peer@ by {
            assert(self.endpoints@[j].peer@ != peer@);
        }
        false
    }

    /// Arms the query with the bootstrap endpoints and the target. Nothing
    /// is sent: a query that refuses its endpoints has caused no traffic.
    pub fn arm(&mut self, bootstrap: Vec<NetworkAddress>, target: PeerIdentity) -> (r: Result<
        (),
        Failure,
    >)
        ensures
            (final(self)@, r) == armed(old(self)@, views(bootstrap@), target@),
    {
        match self.phase {
            Phase::Idle => {},
            _ => {
                return Err(Failure::NotIdle);
            },
        }
        let peers = endpoint_peers(&bootstrap);
        match check_endpoints(&peers) {
            Err(failure) => Err(failure),
            Ok(_) => {
                let mut endpoints: Vec<Endpoint> = Vec::new();
                let mut i: usize = 0;
                while i < bootstrap.len()
                    invariant
                        i <= bootstrap.len(),
                        peers.len() == bootstrap.len(),
                        endpoints.len() == i,
                        peer_views(peers@) == suffixes(views(bootstrap@)),
                        forall|j: int| 0 <= j < peers.len() ==> peer_views(peers@)[j] is Some,
                        forall|j: int|
                            0 <= j < i ==> (#[trigger] endpoints@[j])@ == paired(
                                views(bootstrap@),
                            )[j],
                    decreases bootstrap.len() - i,
                {
                    assert(peer_views(peers@)[i as int] == suffixes(views(bootstrap@))[i as int]);
                    match &peers[i] {
                        Some(peer) => {
                            endpoints.push(
                                Endpoint { peer: peer.clone(), address: bootstrap[i].clone() },
                            );
                        },
                        None => {
                            assert(peer_views(peers@)[i as int] is None);
                        },
                    }
                    i = i + 1;
                }
                assert(endpoint_views(endpoints@) =~= paired(views(bootstrap@)));
                self.phase = Phase::Armed;
                self.target = target;
                self.endpoints = endpoints;
                Ok(())
            },
        }
    }

    /// Starts the query: hands out what is to be done first.
    pub fn start(&mut self) -> (commands: Vec<Command>)
        ensures
            (final(self)@, command_views(commands@)) == started(old(self)@),
    {
        let mut commands: Vec<Command> = Vec::new();
        match self.phase {
            Phase::Armed => {},
            _ => {
                assert(command_views(commands@) =~= Seq::<CommandView>::empty());
                return commands;
            },
        }
        let mut i: usize = 0;
        while i < self.endpoints.len()
            invariant
                i <= self.endpoints.len(),
                commands.len() == i,
                forall|j: int|
                    0 <= j < i ==> (#[trigger] commands@[j])@ == dials(
                        endpoint_views(self.endpoints@),
                    )[j],
            decreases self.endpoints.len() - i,
        {
            commands.push(
                Command::Dial {
                    peer: self.endpoints[i].peer.clone(),
                    address: self.endpoints[i].address.clone(),
                },
            );
            i = i + 1;
        }
        assert(command_views(commands@) =~= dials(endpoint_views(self.endpoints@)));
        match self.strategy {
            Strategy::Lookup => {
                let ghost before = commands@;
                commands.push(Command::GetRecord { key: record_key(&self.target) });
                assert(command_views(commands@) =~= command_views(before).push(
                    CommandView::GetRecord { key: self.target@ },
                ));
            },
            Strategy::Exchange => {},
        }
        self.phase = Phase::Awaiting;
        commands
    }

    /// Takes one event and says what follows from it.
    pub fn on_event(&mut self, event: &Event) -> (r: Reaction)
        ensures
            (final(self)@, r@) == step(old(self)@, event@),
    {
        match self.phase {
            Phase::Awaiting => {},
            _ => {
                return Reaction::Wait;
            },
        }
        match event {
            Event::Cancelled => {
                self.phase = Phase::Terminal;
                Reaction::Stopped
            },
            Event::DialFailure { remote } => {
                match remote {
                    Some(peer) => {
                        if self.leads_to(peer) {
                            self.phase = Phase::Terminal;
                            Reaction::Done(QueryOutcome::Failed(Failure::Dial))
                        } else {
                            Reaction::Wait
                        }
                    },
                    None => Reaction::Wait,
                }
            },
            Event::ConnectionEstablished { peer } => {
                match self.strategy {
                    Strategy::Exchange => {
                        match self.exchange.dispatch(peer.clone()) {
                            Some(id) => Reaction::Perform(
                                Command::SendRequest {
                                    id,
                                    peer: peer.clone(),
                                    request: Request { peer: self.target.clone() },
                                },
                            ),
                            None => Reaction::Wait,
                        }
                    },
                    Strategy::Lookup => Reaction::Wait,
                }
            },
            Event::Response { id, response } => {
                match self.strategy {
                    Strategy::Exchange => {
                        match self.exchange.complete(*id) {
                            Some(_) => {
                                self.phase = Phase::Terminal;
                                Reaction::Done(judge(&self.target, response))
                            },
                            None => {
                                assert(self.exchange.pending() =~= old(self).exchange.pending());
                                Reaction::Wait
                            },
                        }
                    },
                    Strategy::Lookup => Reaction::Wait,
                }
            },
            Event::OutboundFailure { id, reason } => {
                match self.strategy {
                    Strategy::Exchange => {
                        match self.exchange.complete(*id) {
                            Some(_) => {
                                self.phase = Phase::Terminal;
                                Reaction::Done(QueryOutcome::Failed(Failure::Outbound(*reason)))
                            },
                            None => {
                                assert(self.exchange.pending() =~= old(self).exchange.pending());
                                Reaction::Wait
                            },
                        }
                    },
                    Strategy::Lookup => Reaction::Wait,
                }
            },
            Event::InboundFailure => {
                match self.strategy {
                    Strategy::Exchange => {
                        self.phase = Phase::Terminal;
                        Reaction::Done(QueryOutcome::Failed(Failure::Inbound))
                    },
                    Strategy::Lookup => Reaction::Wait,
                }
            },
            Event::Lookup(end) => {
                match self.strategy {
                    Strategy::Lookup => {
                        self.phase = Phase::Terminal;
                        Reaction::Done(interpret(end))
                    },
                    Strategy::Exchange => Reaction::Wait,
                }
            },
            Event::Ignored => Reaction::Wait,
        }
    }
}

/// How a query that was fed a list of events ended.
#[derive(Debug, PartialEq, Eq)]
pub enum Ending {
    /// With an outcome.
    Finished(QueryOutcome),
    /// Without one: it was cancelled.
    Cancelled,
    /// Not at all: the events ran out while the query was waiting.
    Waiting,
}

/// An ending as plain values.
pub enum EndingView {
    Finished(OutcomeView),
    Cancelled,
    Waiting,
}

impl View for Ending {
    type V = EndingView;

    open spec fn view(&self) -> EndingView {
        match self {
            Ending::Finished(outcome) => EndingView::Finished(outcome@),
            Ending::Cancelled => EndingView::Cancelled,
            Ending::Waiting => EndingView::Waiting,
        }
    }
}

/// A whole resolution: every command that the query handed out, in order,
/// and how it ended.
#[derive(Debug, PartialEq, Eq)]
pub struct Resolution {
    pub commands: Vec<Command>,
    pub ending: Ending,
}

/// The query `q` fed the events `events` one by one: the commands it hands
/// out and how it ends. The first event that ends the query decides; the
/// events behind it are not looked at.
pub open spec fn run(q: QueryView, events: Seq<EventView>) -> (Seq<CommandView>, EndingView)
    decreases events.len(),
{
    if events.len() == 0 {
        (Seq::empty(), EndingView::Waiting)
    } else {
        let (next, reaction) = step(q, events[0]);
        match reaction {
            ReactionView::Wait => run(next, events.skip(1)),
            ReactionView::Perform(command) => {
                let (commands, ending) = run(next, events.skip(1));
                (seq![command] + commands, ending)
            },
            ReactionView::Done(outcome) => (Seq::empty(), EndingView::Finished(outcome)),
            ReactionView::Stopped => (Seq::empty(), EndingView::Cancelled),
        }
    }
}

/// The idle query that resolves by `strategy`.
pub open spec fn idle(strategy: Strategy) -> QueryView {
    QueryView {
        phase: Phase::Idle,
        strategy,
        target: Seq::empty(),
        endpoints: Seq::empty(),
        pending: Map::empty(),
        next_id: 0,
    }
}

/// A resolution from beginning to end: a new query is armed, started and
/// fed the events. Where arming fails, that failure is the outcome and no
/// command was handed out.
pub open spec fn resolution(
    strategy: Strategy,
    addresses: Seq<Seq<u8>>,
    target: Seq<u8>,
    events: Seq<EventView>,
) -> (Seq<CommandView>, EndingView) {
    let (query, accepted) = armed(idle(strategy), addresses, target);
    match accepted {
        Err(failure) => (Seq::empty(), EndingView::Finished(OutcomeView::Failed(failure))),
        Ok(_) => {
            let (waiting, first) = started(query);
            let (more, ending) = run(waiting, events);
            (first + more, ending)
        },
    }
}

/// Resolves the addresses of `target` by `strategy` through the bootstrap
/// endpoints `bootstrap`, given everything that happens as `events`.
#[verifier::loop_isolation(false)]
pub fn resolve(
    strategy: Strategy,
    bootstrap: Vec<NetworkAddress>,
    target: PeerIdentity,
    events: &Vec<Event>,
) -> (r: Resolution)
    ensures
        (command_views(r.commands@), r.ending@) == resolution(
            strategy,
            views(bootstrap@),
            target@,
            event_views(events@),
        ),
{
    let ghost total = resolution(strategy, views(bootstrap@), target@, event_views(events@));
    let ghost all = event_views(events@);
    let mut query = Orchestrator::new(strategy);
    match query.arm(bootstrap, target) {
        Err(failure) => {
            let commands: Vec<Command> = Vec::new();
            assert(command_views(commands@) =~= Seq::<CommandView>::empty());
            return Resolution {
                commands,
                ending: Ending::Finished(QueryOutcome::Failed(failure)),
            };
        },
        Ok(_) => {},
    }
    let mut commands = query.start();
    let mut i: usize = 0;
    assert(all.skip(0) =~= all);
    while i < events.len()
        invariant
            i <= events.len(),
            all == event_views(events@),
            total == (
                command_views(commands@) + run(query@, all.skip(i as int)).0,
                run(query@, all.skip(i as int)).1,
            ),
        decreases events.len() - i,
    {
        let ghost before = command_views(commands@);
        let ghost rest = all.skip(i as int);
        assert(rest[0] == events@[i as int]@);
        assert(rest.skip(1) =~= all.skip(i + 1));
        match query.on_event(&events[i]) {
            Reaction::Wait => {},
            Reaction::Perform(command) => {
                let ghost sent = command@;
                commands.push(command);
                assert(command_views(commands@) =~= before.push(sent));
                assert(before + (seq![sent] + run(query@, all.skip(i + 1)).0) =~= before.push(sent)
                    + run(query@, all.skip(i + 1)).0);
            },
            Reaction::Done(outcome) => {
                assert(before + Seq::<CommandView>::empty() =~= before);
                return Resolution { commands, ending: Ending::Finished(outcome) };
            },
            Reaction::Stopped => {
                assert(before + Seq::<CommandView>::empty() =~= before);
                return Resolution { commands, ending: Ending::Cancelled };
            },
        }
        i = i + 1;
    }
    assert(command_views(commands@) + Seq::<CommandView>::empty() =~= command_views(commands@));
    Resolution { commands, ending: Ending::Waiting }
}

/// A resolution without a bootstrap endpoint fails as wrongly configured,
/// whatever happens, and hands out no command: nothing is dialled.
pub proof fn lemma_no_endpoint(strategy: Strategy, target: Seq<u8>, events: Seq<EventView>)
    ensures
        resolution(strategy, Seq::empty(), target, events) == (
            Seq::<CommandView>::empty(),
            EndingView::Finished(OutcomeView::Failed(Failure::NoBootstrap)),
        ),
        Failure::NoBootstrap.category_spec() == crate::outcome::Category::Configuration,
{
}

/// A resolution with a bootstrap endpoint that does not end in an identity
/// fails as wrongly configured, whatever happens, and hands out no command.
pub proof fn lemma_endpoint_without_identity(
    strategy: Strategy,
    addresses: Seq<Seq<u8>>,
    target: Seq<u8>,
    events: Seq<EventView>,
    i: int,
)
    requires
        0 <= i < addresses.len(),
        peer_suffix(addresses[i]) is None,
    ensures
        resolution(strategy, addresses, target, events) == (
            Seq::<CommandView>::empty(),
            EndingView::Finished(OutcomeView::Failed(Failure::MissingPeerId)),
        ),
        Failure::MissingPeerId.category_spec() == crate::outcome::Category::Configuration,
{
    assert(suffixes(addresses)[i] is None);
}

/// A resolution whose endpoints are accepted dials every endpoint, in their
/// order, before anything else.
pub proof fn lemma_dials_first(
    strategy: Strategy,
    addresses: Seq<Seq<u8>>,
    target: Seq<u8>,
    events: Seq<EventView>,
)
    requires
        acceptance(suffixes(addresses)) is Ok,
    ensures
        resolution(strategy, addresses, target, events).0.len() >= addresses.len(),
        forall|i: int|
            0 <= i < addresses.len() ==> #[trigger] resolution(
                strategy,
                addresses,
                target,
                events,
            ).0[i] == (CommandView::Dial {
                peer: peer_suffix(addresses[i]).unwrap(),
                address: addresses[i],
            }),
{
}

/// A response that speaks of another peer than the target fails the query
/// as a breach of the protocol, whatever else the response holds.
pub proof fn lemma_target_mismatch(q: QueryView, id: u64, response: ResponseView)
    requires
        q.phase == Phase::Awaiting,
        q.strategy == Strategy::Exchange,
        q.pending.contains_key(id),
        response.target() != q.target,
    ensures
        step(q, EventView::Response { id, response }).1 == ReactionView::Done(
            OutcomeView::Failed(Failure::TargetMismatch),
        ),
        Failure::TargetMismatch.category_spec() == crate::outcome::Category::Protocol,
{
}

/// A connection to the peer behind a bootstrap endpoint that could not be
/// made fails a waiting query, whichever way it resolves, as a failure of
/// the transport, and no command is handed out.
pub proof fn lemma_dial_failure(q: QueryView, peer: Seq<u8>)
    requires
        q.phase == Phase::Awaiting,
        is_endpoint(q.endpoints, peer),
    ensures
        step(q, EventView::DialFailure { remote: Some(peer) }) == (
            ended(q),
            ReactionView::Done(OutcomeView::Failed(Failure::Dial)),
        ),
        Failure::Dial.category_spec() == crate::outcome::Category::Transport,
{
}

/// A query ends at most once: a step gives an outcome or stops exactly
/// when it takes a waiting query to its terminal phase, and a query in its
/// terminal phase passes over every event and stays as it is.
pub proof fn lemma_ends_once(q: QueryView, event: EventView)
    ensures
        (step(q, event).1 is Done || step(q, event).1 is Stopped) <==> (q.phase == Phase::Awaiting
            && step(q, event).0.phase == Phase::Terminal),
        q.phase == Phase::Terminal ==> step(q, event) == (q, ReactionView::Wait),
{
}

/// Whether every request under way has an identifier that was handed out.
pub open spec fn well_formed(q: QueryView) -> bool {
    forall|id: u64| q.pending.contains_key(id) ==> id < q.next_id
}

/// Identifiers are never handed out twice: a step keeps every identifier
/// under way below the next one, and the identifier of a request that it
/// sends was not under way before.
pub proof fn lemma_identifiers_fresh(q: QueryView, event: EventView)
    requires
        well_formed(q),
    ensures
        well_formed(step(q, event).0),
        q.next_id <= step(q, event).0.next_id,
        step(q, event).1 matches ReactionView::Perform(CommandView::SendRequest { id, .. })
            ==> id == q.next_id && !q.pending.contains_key(id) && id < step(q, event).0.next_id,
{
}

/// A request ends at most once: after the response to the request `id`, or
/// its failure, the identifier is not under way any more.
pub proof fn lemma_request_ends_once(
    q: QueryView,
    id: u64,
    response: ResponseView,
    reason: Undelivered,
)
    requires
        q.phase == Phase::Awaiting,
        q.strategy == Strategy::Exchange,
    ensures
        !step(q, EventView::Response { id, response }).0.pending.contains_key(id),
        !step(q, EventView::OutboundFailure { id, reason }).0.pending.contains_key(id),
{
}

/// Nothing is tried again: the only command that a step hands out is a
/// request to a peer whose connection was just established, so that no
/// endpoint is dialled and no record looked up a second time.
pub proof fn lemma_no_retry(q: QueryView, event: EventView)
    ensures
        step(q, event).1 matches ReactionView::Perform(command) ==> event
            is ConnectionEstablished && command == (CommandView::SendRequest {
            id: q.next_id,
            peer: event->ConnectionEstablished_peer,
            target: q.target,
        }),
{
}

/// What happens after a query has ended changes nothing.
pub proof fn lemma_first_end_decides(q: QueryView, events: Seq<EventView>, later: Seq<EventView>)
    requires
        !(run(q, events).1 is Waiting),
    ensures
        run(q, events + later) == run(q, events),
    decreases events.len(),
{
    if events.len() > 0 {
        let all = events + later;
        assert(all[0] == events[0]);
        assert(all.skip(1) =~= events.skip(1) + later);
        let (next, reaction) = step(q, events[0]);
        match reaction {
            ReactionView::Wait => {
                lemma_first_end_decides(next, events.skip(1), later);
            },
            ReactionView::Perform(_) => {
                lemma_first_end_decides(next, events.skip(1), later);
            },
            _ => {},
        }
    }
}

} // verus!
