use libp2p::multiaddr::Protocol;
use libp2p::{Multiaddr, PeerId};
use lp2p::dht::{interpret, interpret_record, record_key, LookupOutcome};
use lp2p::exchange::Exchange;
use lp2p::orchestrator::{
    check_endpoints, endpoint_peers, judge, resolve, Command, Ending, Event, Orchestrator, Phase,
    Reaction, Strategy,
};
use lp2p::outcome::{Category, Failure, QueryOutcome, Undelivered};
use lp2p::query::{collect, gather, perform_query, read_bootnodes, render, report};
use lp2p::responder::{lookup, respond, RoutingEntry};
use lp2p::{extract_peer_id, NetworkAddress, PeerIdentity, Request, Response};

fn peer_id(seed: u8) -> PeerId {
    PeerId::from_bytes(&[0x00, 0x04, seed, seed, seed, seed]).unwrap()
}

fn peer(seed: u8) -> PeerIdentity {
    PeerIdentity::from_bytes(peer_id(seed).to_bytes())
}

fn plain(port: u16) -> Multiaddr {
    let text = format!("/ip4/127.0.0.1/tcp/{}", port);
    text.parse().unwrap()
}

fn address(port: u16) -> NetworkAddress {
    NetworkAddress::from_bytes(plain(port).to_vec())
}

fn endpoint(port: u16, seed: u8) -> NetworkAddress {
    NetworkAddress::from_bytes(plain(port).with(Protocol::P2p(peer_id(seed))).to_vec())
}

fn record(addresses: &[Multiaddr]) -> Vec<u8> {
    cbor4ii::serde::to_vec(Vec::new(), &addresses.to_vec()).unwrap()
}

#[test]
fn address_that_ends_in_an_identity_gives_it() {
    assert_eq!(extract_peer_id(&endpoint(4001, 7)), Some(peer(7)));
    assert_eq!(peer(7).bytes, vec![0x00, 0x04, 7, 7, 7, 7]);
}

#[test]
fn address_that_ends_in_something_else_gives_none() {
    assert_eq!(extract_peer_id(&address(4001)), None);
    let inner = plain(1).with(Protocol::P2p(peer_id(3))).with(Protocol::Tcp(9));
    assert_eq!(extract_peer_id(&NetworkAddress::from_bytes(inner.to_vec())), None);
}

#[test]
fn bytes_that_are_no_address_give_none() {
    assert_eq!(extract_peer_id(&NetworkAddress::from_bytes(vec![])), None);
    assert_eq!(extract_peer_id(&NetworkAddress::from_bytes(vec![0xff, 0xff, 0xff])), None);
}

#[test]
fn identities_are_the_same_when_their_bytes_are() {
    assert!(peer(1).same(&peer(1)));
    assert!(!peer(1).same(&peer(2)));
    assert!(!peer(1).same(&PeerIdentity::from_bytes(vec![0x00, 0x04, 1, 1, 1])));
    assert_eq!(peer(5).clone(), peer(5));
    assert_eq!(address(5).clone(), address(5));
}

#[test]
fn peer_that_knows_the_target_gives_its_addresses() {
    let table = vec![
        RoutingEntry { peer: peer(1), addresses: vec![address(10)] },
        RoutingEntry { peer: peer(2), addresses: vec![address(21), address(22)] },
    ];
    let request = Request { peer: peer(2) };
    let response = respond(&request, &table, &vec![address(99)]);
    assert_eq!(response, Response::Found { peer: peer(2), maddrs: vec![address(21), address(22)] });

    let events = vec![
        Event::ConnectionEstablished { peer: peer(9) },
        Event::Response { id: 0, response },
    ];
    let resolution = resolve(Strategy::Exchange, vec![endpoint(4001, 9)], peer(2), &events);
    assert_eq!(
        resolution.ending,
        Ending::Finished(QueryOutcome::Resolved(vec![address(21), address(22)]))
    );
    assert_eq!(
        resolution.commands,
        vec![
            Command::Dial { peer: peer(9), address: endpoint(4001, 9) },
            Command::SendRequest { id: 0, peer: peer(9), request: Request { peer: peer(2) } },
        ]
    );
}

#[test]
fn peer_that_knows_nothing_says_not_found() {
    let table = vec![RoutingEntry { peer: peer(1), addresses: vec![address(10)] }];
    let response = respond(&Request { peer: peer(2) }, &table, &vec![]);
    assert_eq!(response, Response::NotFound { peer: peer(2) });

    let events = vec![
        Event::ConnectionEstablished { peer: peer(9) },
        Event::Response { id: 0, response },
    ];
    let resolution = resolve(Strategy::Exchange, vec![endpoint(4001, 9)], peer(2), &events);
    assert_eq!(resolution.ending, Ending::Finished(QueryOutcome::Failed(Failure::NotFound)));
    assert_eq!(report(&resolution.ending), Err("Not found".to_string()));
}

#[test]
fn responder_without_an_entry_answers_with_its_own_addresses() {
    let table = vec![RoutingEntry { peer: peer(1), addresses: vec![address(10)] }];
    let response = respond(&Request { peer: peer(2) }, &table, &vec![address(70), address(71)]);
    assert_eq!(response, Response::Found { peer: peer(2), maddrs: vec![address(70), address(71)] });
    assert_eq!(response.target(), &peer(2));
}

#[test]
fn responder_takes_the_first_entry_as_it_stands() {
    let table = vec![
        RoutingEntry { peer: peer(2), addresses: vec![] },
        RoutingEntry { peer: peer(2), addresses: vec![address(21)] },
    ];
    assert_eq!(lookup(&peer(2), &table), Some(&table[0]));
    assert_eq!(lookup(&peer(3), &table), None);
    let response = respond(&Request { peer: peer(2) }, &table, &vec![address(70)]);
    assert_eq!(response, Response::Found { peer: peer(2), maddrs: vec![] });
    let nothing = respond(&Request { peer: peer(2) }, &vec![], &vec![]);
    assert_eq!(nothing, Response::NotFound { peer: peer(2) });
}

#[test]
fn lookup_without_a_record_gives_no_addresses() {
    assert_eq!(interpret(&LookupOutcome::Exhausted), QueryOutcome::Resolved(vec![]));
    let events = vec![Event::Ignored, Event::Lookup(LookupOutcome::Exhausted)];
    let resolution = resolve(Strategy::Lookup, vec![endpoint(4001, 9)], peer(2), &events);
    assert_eq!(resolution.ending, Ending::Finished(QueryOutcome::Resolved(vec![])));
    assert_eq!(
        resolution.commands,
        vec![
            Command::Dial { peer: peer(9), address: endpoint(4001, 9) },
            Command::GetRecord { key: vec![0x00, 0x04, 2, 2, 2, 2] },
        ]
    );
    assert_eq!(report(&resolution.ending), Ok(vec![]));
}

#[test]
fn record_that_is_no_list_of_addresses_fails_the_query() {
    let events = vec![Event::Lookup(LookupOutcome::Record(vec![0x61, 0x61]))];
    let resolution = resolve(Strategy::Lookup, vec![endpoint(4001, 9)], peer(2), &events);
    assert_eq!(
        resolution.ending,
        Ending::Finished(QueryOutcome::Failed(Failure::Decode))
    );
    assert_eq!(Failure::Decode.category(), Category::Protocol);
    assert_eq!(
        report(&resolution.ending),
        Err("Record could not be decoded".to_string())
    );
}

#[test]
fn record_that_is_cut_or_holds_no_address_fails_the_query() {
    let cut = LookupOutcome::Record(vec![0x82, 0x41]);
    assert_eq!(interpret(&cut), QueryOutcome::Failed(Failure::Decode));
    let none = LookupOutcome::Record(vec![]);
    assert_eq!(interpret(&none), QueryOutcome::Failed(Failure::Decode));
    let no_address = LookupOutcome::Record(vec![0x81, 0x43, 0xff, 0xff, 0xff]);
    assert_eq!(interpret(&no_address), QueryOutcome::Failed(Failure::Decode));
    let reserved = LookupOutcome::Record(vec![0x1c]);
    assert_eq!(interpret(&reserved), QueryOutcome::Failed(Failure::Decode));
}

#[test]
fn lookup_that_finds_a_record_gives_its_addresses() {
    let value = record(&[plain(21), plain(22)]);
    assert_eq!(
        interpret(&LookupOutcome::Record(value.clone())),
        QueryOutcome::Resolved(vec![address(21), address(22)])
    );
    assert_eq!(
        interpret(&LookupOutcome::Record(record(&[]))),
        QueryOutcome::Resolved(vec![])
    );
    let events = vec![Event::Lookup(LookupOutcome::Record(value))];
    let resolution = resolve(Strategy::Lookup, vec![endpoint(4001, 9)], peer(2), &events);
    assert_eq!(
        resolution.ending,
        Ending::Finished(QueryOutcome::Resolved(vec![address(21), address(22)]))
    );
}

#[test]
fn lookup_that_fails_fails_the_query() {
    assert_eq!(interpret(&LookupOutcome::Failed), QueryOutcome::Failed(Failure::Lookup));
    assert_eq!(interpret_record(None), QueryOutcome::Failed(Failure::Decode));
    assert_eq!(interpret_record(Some(vec![address(1)])), QueryOutcome::Resolved(vec![address(1)]));
    assert_eq!(record_key(&peer(4)), vec![0x00, 0x04, 4, 4, 4, 4]);
}

#[test]
fn response_for_another_peer_is_not_trusted() {
    let response = Response::Found { peer: peer(3), maddrs: vec![address(21)] };
    assert_eq!(judge(&peer(2), &response), QueryOutcome::Failed(Failure::TargetMismatch));
    let events = vec![
        Event::ConnectionEstablished { peer: peer(9) },
        Event::Response { id: 0, response },
    ];
    let resolution = resolve(Strategy::Exchange, vec![endpoint(4001, 9)], peer(2), &events);
    assert_eq!(resolution.ending, Ending::Finished(QueryOutcome::Failed(Failure::TargetMismatch)));
    assert_eq!(Failure::TargetMismatch.category(), Category::Protocol);
    let other = Response::NotFound { peer: peer(3) };
    assert_eq!(judge(&peer(2), &other), QueryOutcome::Failed(Failure::TargetMismatch));
}

#[test]
fn resolve_without_endpoints_is_wrongly_configured() {
    let events = vec![Event::ConnectionEstablished { peer: peer(9) }];
    for strategy in [Strategy::Exchange, Strategy::Lookup] {
        let resolution = resolve(strategy, vec![], peer(2), &events);
        assert_eq!(resolution.commands, vec![]);
        assert_eq!(resolution.ending, Ending::Finished(QueryOutcome::Failed(Failure::NoBootstrap)));
    }
    assert_eq!(Failure::NoBootstrap.category(), Category::Configuration);
    assert_eq!(check_endpoints(&vec![]), Err(Failure::NoBootstrap));
}

#[test]
fn resolve_with_an_endpoint_without_identity_is_wrongly_configured() {
    let bootstrap = vec![endpoint(4001, 9), address(4002)];
    let resolution = resolve(Strategy::Exchange, bootstrap, peer(2), &vec![]);
    assert_eq!(resolution.commands, vec![]);
    assert_eq!(resolution.ending, Ending::Finished(QueryOutcome::Failed(Failure::MissingPeerId)));
    assert_eq!(Failure::MissingPeerId.category(), Category::Configuration);
    assert_eq!(check_endpoints(&vec![Some(peer(1)), None]), Err(Failure::MissingPeerId));
    assert_eq!(check_endpoints(&vec![Some(peer(1)), Some(peer(2))]), Ok(()));
    assert_eq!(
        endpoint_peers(&vec![endpoint(1, 5), address(2)]),
        vec![Some(peer(5)), None]
    );
}

#[test]
fn query_goes_through_its_phases_once() {
    let mut query = Orchestrator::new(Strategy::Exchange);
    assert_eq!(query.phase(), Phase::Idle);
    assert_eq!(query.start(), vec![]);
    assert_eq!(query.on_event(&Event::Cancelled), Reaction::Wait);
    assert_eq!(query.phase(), Phase::Idle);

    assert_eq!(query.arm(vec![], peer(2)), Err(Failure::NoBootstrap));
    assert_eq!(query.phase(), Phase::Idle);
    assert_eq!(query.arm(vec![endpoint(1, 8), endpoint(2, 9)], peer(2)), Ok(()));
    assert_eq!(query.phase(), Phase::Armed);
    assert_eq!(query.arm(vec![endpoint(1, 8)], peer(3)), Err(Failure::NotIdle));
    assert_eq!(query.on_event(&Event::InboundFailure), Reaction::Wait);

    assert_eq!(
        query.start(),
        vec![
            Command::Dial { peer: peer(8), address: endpoint(1, 8) },
            Command::Dial { peer: peer(9), address: endpoint(2, 9) },
        ]
    );
    assert_eq!(query.phase(), Phase::Awaiting);
    assert_eq!(query.start(), vec![]);

    assert_eq!(query.on_event(&Event::Ignored), Reaction::Wait);
    assert_eq!(query.on_event(&Event::Lookup(LookupOutcome::Exhausted)), Reaction::Wait);
    assert_eq!(
        query.on_event(&Event::ConnectionEstablished { peer: peer(8) }),
        Reaction::Perform(Command::SendRequest {
            id: 0,
            peer: peer(8),
            request: Request { peer: peer(2) }
        })
    );
    assert_eq!(
        query.on_event(&Event::ConnectionEstablished { peer: peer(9) }),
        Reaction::Perform(Command::SendRequest {
            id: 1,
            peer: peer(9),
            request: Request { peer: peer(2) }
        })
    );
    assert_eq!(query.on_event(&Event::OutboundFailure { id: 5, reason: Undelivered::Lost }), Reaction::Wait);
    let late = Event::Response { id: 7, response: Response::NotFound { peer: peer(2) } };
    assert_eq!(query.on_event(&late), Reaction::Wait);
    assert_eq!(query.phase(), Phase::Awaiting);

    let answer = Event::Response {
        id: 1,
        response: Response::Found { peer: peer(2), maddrs: vec![address(30)] },
    };
    assert_eq!(
        query.on_event(&answer),
        Reaction::Done(QueryOutcome::Resolved(vec![address(30)]))
    );
    assert_eq!(query.phase(), Phase::Terminal);
    assert_eq!(query.on_event(&answer), Reaction::Wait);
    assert_eq!(query.on_event(&Event::Cancelled), Reaction::Wait);
    assert_eq!(query.arm(vec![endpoint(1, 8)], peer(3)), Err(Failure::NotIdle));
    assert_eq!(query.phase(), Phase::Terminal);
}

#[test]
fn failures_of_the_exchange_end_the_query() {
    let connected = Event::ConnectionEstablished { peer: peer(9) };
    let outbound = resolve(
        Strategy::Exchange,
        vec![endpoint(1, 9)],
        peer(2),
        &vec![connected, Event::OutboundFailure { id: 0, reason: Undelivered::Unreachable }],
    );
    assert_eq!(
        outbound.ending,
        Ending::Finished(QueryOutcome::Failed(Failure::Outbound(Undelivered::Unreachable)))
    );
    assert_eq!(Failure::Outbound(Undelivered::Lost).category(), Category::Transport);
    let inbound =
        resolve(Strategy::Exchange, vec![endpoint(1, 9)], peer(2), &vec![Event::InboundFailure]);
    assert_eq!(inbound.ending, Ending::Finished(QueryOutcome::Failed(Failure::Inbound)));
    assert_eq!(Failure::Inbound.category(), Category::Transport);
    assert_eq!(Failure::NotFound.category(), Category::NotFound);
    assert_eq!(Failure::Lookup.category(), Category::Lookup);
    assert_eq!(Failure::NotIdle.category(), Category::Configuration);
}

#[test]
fn the_first_event_that_ends_the_query_decides() {
    let found = Response::Found { peer: peer(2), maddrs: vec![address(30)] };
    let events = vec![
        Event::ConnectionEstablished { peer: peer(8) },
        Event::ConnectionEstablished { peer: peer(9) },
        Event::Response { id: 1, response: Response::NotFound { peer: peer(2) } },
        Event::Response { id: 0, response: found },
        Event::Cancelled,
    ];
    let resolution =
        resolve(Strategy::Exchange, vec![endpoint(1, 8), endpoint(2, 9)], peer(2), &events);
    assert_eq!(resolution.ending, Ending::Finished(QueryOutcome::Failed(Failure::NotFound)));
    assert_eq!(resolution.commands.len(), 4);
}

#[test]
fn cancellation_stops_the_query_without_an_outcome() {
    let events = vec![
        Event::ConnectionEstablished { peer: peer(9) },
        Event::Cancelled,
        Event::Response { id: 0, response: Response::NotFound { peer: peer(2) } },
    ];
    let resolution = resolve(Strategy::Exchange, vec![endpoint(1, 9)], peer(2), &events);
    assert_eq!(resolution.ending, Ending::Cancelled);
    assert_eq!(report(&resolution.ending), Err("Cancelled".to_string()));
    let waiting = resolve(Strategy::Exchange, vec![endpoint(1, 9)], peer(2), &vec![]);
    assert_eq!(waiting.ending, Ending::Waiting);
    assert_eq!(report(&waiting.ending), Err("No outcome".to_string()));
}

#[test]
fn a_request_ends_once() {
    let mut exchange = Exchange::new();
    assert_eq!(exchange.outstanding(), 0);
    assert_eq!(exchange.dispatch(peer(1)), Some(0));
    assert_eq!(exchange.dispatch(peer(2)), Some(1));
    assert_eq!(exchange.outstanding(), 2);
    assert_eq!(exchange.complete(1), Some(peer(2)));
    assert_eq!(exchange.complete(1), None);
    assert_eq!(exchange.complete(9), None);
    assert_eq!(exchange.outstanding(), 1);
    assert_eq!(exchange.dispatch(peer(3)), Some(2));
    assert_eq!(exchange.complete(0), Some(peer(1)));
}

#[test]
fn failures_have_words() {
    assert_eq!(Failure::NoBootstrap.message(), "No bootstrap endpoint");
    assert_eq!(Failure::MissingPeerId.message(), "Bootstrap endpoint without a peer identity");
    assert_eq!(Failure::NotIdle.message(), "Query already armed");
    assert_eq!(Failure::Outbound(Undelivered::Unreachable).message(), "Peer unreachable");
    assert_eq!(Failure::Outbound(Undelivered::Unsupported).message(), "Protocol not supported");
    assert_eq!(Failure::Outbound(Undelivered::Lost).message(), "Request not answered");
    assert_eq!(Failure::Inbound.message(), "Inbound failure");
    assert_eq!(Failure::Decode.message(), "Record could not be decoded");
    assert_eq!(Failure::Dial.message(), "Bootstrap endpoint not connected");
    assert_eq!(Failure::TargetMismatch.message(), "Response for another peer");
    assert_eq!(Failure::NotFound.message(), "Not found");
    assert_eq!(Failure::Lookup.message(), "Lookup failed");
}

#[test]
fn texts_are_read_as_addresses_in_order() {
    let texts = vec!["/ip4/127.0.0.1/tcp/21".to_string(), "/ip4/127.0.0.1/tcp/22".to_string()];
    assert_eq!(read_bootnodes(&texts), Ok(vec![address(21), address(22)]));
    assert_eq!(read_bootnodes(&vec![]), Ok(vec![]));
    let wrong = vec![
        "/ip4/127.0.0.1/tcp/21".to_string(),
        "nonsense".to_string(),
        "/ip4/300.0.0.1".to_string(),
    ];
    let refusal = "nonsense".parse::<Multiaddr>().unwrap_err().to_string();
    assert_eq!(read_bootnodes(&wrong), Err(refusal));
}

#[test]
fn addresses_are_written_each_apart() {
    assert_eq!(
        render(&vec![address(21), address(22)]),
        Some(vec!["/ip4/127.0.0.1/tcp/21".to_string(), "/ip4/127.0.0.1/tcp/22".to_string()])
    );
    assert_eq!(render(&vec![]), Some(vec![]));
    assert_eq!(render(&vec![address(21), NetworkAddress::from_bytes(vec![0xff, 0xff])]), None);
    let unwritable =
        Ending::Finished(QueryOutcome::Resolved(vec![NetworkAddress::from_bytes(vec![0xff])]));
    assert_eq!(report(&unwritable), Err("Address without a text".to_string()));
}

#[test]
fn query_in_text_gives_the_addresses_in_text() {
    let target = peer_id(2);
    let bootnode = plain(4001).with(Protocol::P2p(peer_id(9))).to_string();
    let events = vec![
        Event::ConnectionEstablished { peer: peer(9) },
        Event::Response {
            id: 0,
            response: Response::Found { peer: peer(2), maddrs: vec![address(21), address(22)] },
        },
    ];
    let answer =
        perform_query(Strategy::Exchange, &vec![bootnode.clone()], &target.to_string(), &events);
    let texts = answer.unwrap();
    assert_eq!(texts, vec!["/ip4/127.0.0.1/tcp/21", "/ip4/127.0.0.1/tcp/22"]);
    let read: Vec<Multiaddr> = texts.iter().map(|t| t.parse().unwrap()).collect();
    assert_eq!(read, vec![plain(21), plain(22)]);

    let no_peer = "not a peer".parse::<PeerId>().unwrap_err().to_string();
    assert_eq!(
        perform_query(Strategy::Exchange, &vec![bootnode.clone()], "not a peer", &events),
        Err(no_peer)
    );
    let no_address = "tcp".parse::<Multiaddr>().unwrap_err().to_string();
    assert_eq!(
        perform_query(Strategy::Exchange, &vec!["tcp".to_string()], "not a peer", &events),
        Err(no_address)
    );
    assert_eq!(
        perform_query(Strategy::Exchange, &vec![], &target.to_string(), &events),
        Err("No bootstrap endpoint".to_string())
    );
    assert_eq!(
        perform_query(
            Strategy::Exchange,
            &vec!["/ip4/127.0.0.1/tcp/4001".to_string()],
            &target.to_string(),
            &events
        ),
        Err("Bootstrap endpoint without a peer identity".to_string())
    );
}

#[test]
fn the_first_refusal_decides() {
    let read = vec![
        Ok(vec![1, 2]),
        Err("first".to_string()),
        Ok(vec![3]),
        Err("second".to_string()),
    ];
    assert_eq!(gather(&read), Err("first".to_string()));
    let fine = vec![Ok(vec![1, 2]), Ok(vec![]), Ok(vec![3])];
    assert_eq!(
        gather(&fine),
        Ok(vec![
            NetworkAddress::from_bytes(vec![1, 2]),
            NetworkAddress::from_bytes(vec![]),
            NetworkAddress::from_bytes(vec![3]),
        ])
    );
    assert_eq!(gather(&vec![]), Ok(vec![]));
}

#[test]
fn texts_are_kept_apart_and_in_order() {
    let written = vec![Some("/a".to_string()), Some(String::new()), Some("/b/c".to_string())];
    assert_eq!(
        collect(&written),
        Some(vec!["/a".to_string(), String::new(), "/b/c".to_string()])
    );
    assert_eq!(collect(&vec![Some("/a".to_string()), None]), None);
    assert_eq!(collect(&vec![]), Some(vec![]));
}

#[test]
fn dial_that_fails_fails_the_query() {
    for strategy in [Strategy::Exchange, Strategy::Lookup] {
        let events = vec![
            Event::DialFailure { remote: None },
            Event::DialFailure { remote: Some(peer(5)) },
            Event::DialFailure { remote: Some(peer(9)) },
            Event::ConnectionEstablished { peer: peer(8) },
        ];
        let bootstrap = vec![endpoint(1, 8), endpoint(2, 9)];
        let resolution = resolve(strategy, bootstrap, peer(2), &events);
        assert_eq!(resolution.ending, Ending::Finished(QueryOutcome::Failed(Failure::Dial)));
        assert!(resolution
            .commands
            .iter()
            .all(|command| matches!(command, Command::Dial { .. } | Command::GetRecord { .. })));
    }
    assert_eq!(Failure::Dial.category(), Category::Transport);

    let mut query = Orchestrator::new(Strategy::Exchange);
    assert_eq!(query.on_event(&Event::DialFailure { remote: Some(peer(8)) }), Reaction::Wait);
    assert_eq!(query.arm(vec![endpoint(1, 8)], peer(2)), Ok(()));
    assert!(query.leads_to(&peer(8)));
    assert!(!query.leads_to(&peer(2)));
    query.start();
    assert_eq!(query.on_event(&Event::DialFailure { remote: Some(peer(2)) }), Reaction::Wait);
    assert_eq!(query.phase(), Phase::Awaiting);
    assert_eq!(
        query.on_event(&Event::DialFailure { remote: Some(peer(8)) }),
        Reaction::Done(QueryOutcome::Failed(Failure::Dial))
    );
    assert_eq!(query.phase(), Phase::Terminal);
}

#[test]
fn byte_strings_are_copied_and_told_apart() {
    assert_eq!(lp2p::bytes::copy(&[1, 2, 3]), vec![1, 2, 3]);
    assert_eq!(lp2p::bytes::copy_range(&[1, 2, 3, 4], 1, 3), vec![2, 3]);
    assert_eq!(lp2p::bytes::copy_range(&[1, 2, 3, 4], 2, 2), vec![]);
    assert!(lp2p::bytes::equal(&[1, 2], &[1, 2]));
    assert!(!lp2p::bytes::equal(&[1, 2], &[1, 3]));
    assert!(!lp2p::bytes::equal(&[1, 2], &[1, 2, 3]));
    assert!(lp2p::bytes::equal(&[], &[]));
}
