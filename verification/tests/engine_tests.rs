use bore_relay::auth;
use bore_relay::client::{ClientAction, ClientEvent, ClientSession, ClientState};
use bore_relay::forward::Forwarder;
use bore_relay::ports::{PortAllocator, PortRange};
use bore_relay::registry::Registry;
use bore_relay::relay::{announce, close_session, RelayAction, RelayEvent, RelaySession, RelayState};
use bore_relay::wire::{ClientMessage, ServerMessage};
use bore_relay::{decode_error, error_code, TunnelError};

#[test]
fn inverted_range_is_a_configuration_error() {
    assert!(matches!(PortRange::new(2048, 1024), Err(TunnelError::Configuration)));
    assert!(matches!(PortRange::new(1024, 1024), Ok(_)));
}

#[test]
fn assigned_ports_stay_in_range() {
    let range = PortRange::new(5000, 5007).unwrap();
    let mut alloc = PortAllocator::new(range);
    for _ in 0..8 {
        let p = alloc.try_bind(None).unwrap();
        assert!((5000..=5007).contains(&p));
    }
    assert!(matches!(alloc.try_bind(None), Err(TunnelError::Allocation)));
}

#[test]
fn released_port_is_immediately_reusable() {
    let range = PortRange::new(4000, 4000).unwrap();
    let mut alloc = PortAllocator::new(range);
    assert_eq!(alloc.try_bind(Some(4000)).unwrap(), 4000);
    assert!(matches!(alloc.try_bind(Some(4000)), Err(TunnelError::Allocation)));
    alloc.release(4000);
    assert_eq!(alloc.try_bind(Some(4000)).unwrap(), 4000);
    // Releasing an unbound or out-of-range port is harmless.
    alloc.release(4000);
    alloc.release(9);
}

#[test]
fn claims_are_exactly_once() {
    let mut reg: Registry<String> = Registry::new(10_000);
    assert!(reg.insert(42, 1, 0, "stream".to_string()).is_ok());
    assert_eq!(reg.take(42, 5).unwrap(), "stream");
    assert!(reg.take(42, 5).is_none());
    assert!(reg.take(42, 6).is_none());
}

#[test]
fn duplicate_ids_are_refused_forever() {
    let mut reg: Registry<u32> = Registry::new(10_000);
    assert!(reg.insert(7, 1, 0, 100).is_ok());
    assert_eq!(reg.insert(7, 1, 0, 200), Err(200));
    // Even after the first connection was claimed, the id stays burned.
    assert_eq!(reg.take(7, 1).unwrap(), 100);
    assert_eq!(reg.insert(7, 2, 5, 300), Err(300));
}

#[test]
fn expired_claims_miss_and_sweep_returns_streams() {
    let mut reg: Registry<u32> = Registry::new(10);
    assert!(reg.insert(1, 1, 0, 11).is_ok());
    assert!(reg.insert(2, 1, 5, 22).is_ok());
    // At time 9 the first entry is still live.
    assert_eq!(reg.take(1, 9).unwrap(), 11);
    // At time 15 the second entry is past its deadline: the claim misses.
    assert!(reg.take(2, 15).is_none());
    // The sweep hands the expired stream back for closing.
    let dead = reg.sweep(15);
    assert_eq!(dead, vec![22]);
    assert!(reg.take(2, 15).is_none());
    // A second sweep finds nothing left.
    assert!(reg.sweep(100).is_empty());
}

#[test]
fn dropping_a_session_leaves_other_sessions_alone() {
    let mut reg: Registry<u32> = Registry::new(10_000);
    assert!(reg.insert(1, 7, 0, 11).is_ok());
    assert!(reg.insert(2, 8, 0, 22).is_ok());
    assert!(reg.insert(3, 7, 0, 33).is_ok());
    let mut dead = reg.drop_session(7);
    dead.sort();
    assert_eq!(dead, vec![11, 33]);
    assert!(reg.take(1, 1).is_none());
    assert!(reg.take(3, 1).is_none());
    assert_eq!(reg.take(2, 1).unwrap(), 22);
}

#[test]
fn proofs_validate_only_with_the_right_secret_and_nonce() {
    let secret = b"hunter2".to_vec();
    let other = b"hunter3".to_vec();
    let tag = auth::answer(&secret, 555);
    assert!(auth::validate(&secret, 555, tag.as_slice()));
    assert!(!auth::validate(&other, 555, tag.as_slice()));
    assert!(!auth::validate(&secret, 556, tag.as_slice()));
    let mut bad = tag.clone();
    bad[0] = bad[0].wrapping_add(1);
    assert!(!auth::validate(&secret, 555, bad.as_slice()));
    assert!(!auth::validate(&secret, 555, &[]));
}

/// The scenario with secret "hunter2" and range [1024, 1025]: the first
/// client gets the port it asks for, the second gets the other port, a third
/// finds the range exhausted.
#[test]
fn two_tunnels_fill_a_two_port_range() {
    let secret = b"hunter2".to_vec();
    let range = PortRange::new(1024, 1025).unwrap();
    let mut alloc = PortAllocator::new(range);

    let mut s1 = RelaySession::new(Some(secret.clone()));
    let acts = s1.step(
        RelayEvent::Message(ClientMessage::Hello { requested_port: 1024 }),
        &mut alloc,
    );
    let nonce = match acts.as_slice() {
        [RelayAction::SendChallenge { nonce }] => *nonce,
        _ => panic!("expected a challenge"),
    };
    let tag = auth::answer(&secret, nonce);
    let acts = s1.step(
        RelayEvent::Message(ClientMessage::Authenticate { tag }),
        &mut alloc,
    );
    assert_eq!(
        acts,
        vec![
            RelayAction::SendHello { port: 1024 },
            RelayAction::OpenListener { port: 1024 },
        ]
    );
    assert_eq!(s1.state(), RelayState::Serving { port: 1024 });

    // The second client asks for the same port and gets the only other one.
    let mut s2 = RelaySession::new(Some(secret.clone()));
    let acts = s2.step(
        RelayEvent::Message(ClientMessage::Hello { requested_port: 1024 }),
        &mut alloc,
    );
    let nonce2 = match acts.as_slice() {
        [RelayAction::SendChallenge { nonce }] => *nonce,
        _ => panic!("expected a challenge"),
    };
    let acts = s2.step(
        RelayEvent::Message(ClientMessage::Authenticate { tag: auth::answer(&secret, nonce2) }),
        &mut alloc,
    );
    assert_eq!(
        acts,
        vec![
            RelayAction::SendHello { port: 1025 },
            RelayAction::OpenListener { port: 1025 },
        ]
    );

    // The range is now exhausted: a third tunnel request fails.
    let mut s3 = RelaySession::new(None);
    let acts = s3.step(
        RelayEvent::Message(ClientMessage::Hello { requested_port: 0 }),
        &mut alloc,
    );
    assert_eq!(
        acts,
        vec![
            RelayAction::SendError { error: TunnelError::Allocation },
            RelayAction::CloseControl,
        ]
    );
    assert_eq!(s3.state(), RelayState::Closed);
}

/// The scenario with no secret: a request for port 0 gets some port of the
/// range, and no challenge is ever issued.
#[test]
fn no_secret_assigns_any_port_without_challenge() {
    let range = PortRange::new(7000, 7003).unwrap();
    let mut alloc = PortAllocator::new(range);
    let mut s = RelaySession::new(None);
    let acts = s.step(
        RelayEvent::Message(ClientMessage::Hello { requested_port: 0 }),
        &mut alloc,
    );
    assert_eq!(acts.len(), 2);
    for a in &acts {
        assert!(!matches!(a, RelayAction::SendChallenge { .. }));
    }
    match acts[0] {
        RelayAction::SendHello { port } => {
            assert!((7000..=7003).contains(&port));
            assert_eq!(acts[1], RelayAction::OpenListener { port });
            assert_eq!(s.state(), RelayState::Serving { port });
        }
        _ => panic!("expected an assigned port"),
    }
}

#[test]
fn wrong_proof_never_reaches_serving() {
    let secret = b"hunter2".to_vec();
    let range = PortRange::new(1024, 1025).unwrap();
    let mut alloc = PortAllocator::new(range);
    let mut s = RelaySession::new(Some(secret.clone()));
    s.step(
        RelayEvent::Message(ClientMessage::Hello { requested_port: 1024 }),
        &mut alloc,
    );
    let acts = s.step(
        RelayEvent::Message(ClientMessage::Authenticate { tag: vec![0u8; 32] }),
        &mut alloc,
    );
    assert_eq!(
        acts,
        vec![
            RelayAction::SendError { error: TunnelError::Authentication },
            RelayAction::CloseControl,
        ]
    );
    assert_eq!(s.state(), RelayState::Closed);
    // The port was never bound.
    assert_eq!(alloc.try_bind(Some(1024)).unwrap(), 1024);
}

#[test]
fn out_of_order_messages_close_the_session() {
    let mut alloc = PortAllocator::new(PortRange::new(1024, 1025).unwrap());
    let mut s = RelaySession::new(None);
    let acts = s.step(
        RelayEvent::Message(ClientMessage::Accept { connection_id: 3 }),
        &mut alloc,
    );
    assert_eq!(
        acts,
        vec![
            RelayAction::SendError { error: TunnelError::Protocol },
            RelayAction::CloseControl,
        ]
    );
    // A closed session does nothing more.
    let acts = s.step(
        RelayEvent::Message(ClientMessage::Hello { requested_port: 1024 }),
        &mut alloc,
    );
    assert!(acts.is_empty());
}

#[test]
fn announce_and_teardown_release_everything() {
    let mut alloc = PortAllocator::new(PortRange::new(9000, 9000).unwrap());
    let mut reg: Registry<u32> = Registry::new(10_000);
    let mut s = RelaySession::new(None);
    let acts = s.step(
        RelayEvent::Message(ClientMessage::Hello { requested_port: 9000 }),
        &mut alloc,
    );
    assert_eq!(acts[0], RelayAction::SendHello { port: 9000 });

    let id1 = announce(&mut reg, 1, 0, 501).unwrap();
    let id2 = announce(&mut reg, 1, 0, 502).unwrap();
    assert_ne!(id1, id2);

    // One connection is claimed and forwarded; the other is still pending
    // when the session dies, so teardown hands it back for closing.
    assert_eq!(reg.take(id1, 1).unwrap(), 501);
    let dead = close_session(&mut s, &mut alloc, &mut reg, 1);
    assert_eq!(dead, vec![502]);
    assert_eq!(s.state(), RelayState::Closed);
    assert!(reg.take(id2, 1).is_none());
    // The port is free again for the next session.
    assert_eq!(alloc.try_bind(Some(9000)).unwrap(), 9000);
}

#[test]
fn client_handshake_with_secret() {
    let secret = b"hunter2".to_vec();
    let mut c = ClientSession::new(Some(secret.clone()), 2000);
    assert!(matches!(c.hello(), ClientMessage::Hello { requested_port: 2000 }));

    let acts = c.step(ClientEvent::Message(ServerMessage::Challenge { nonce: 77 }));
    assert_eq!(acts, vec![ClientAction::Answer { nonce: 77 }]);
    assert_eq!(c.state(), ClientState::Authenticating);

    // The answer message carries exactly the proof for that nonce.
    match c.answer_message(77).unwrap() {
        ClientMessage::Authenticate { tag } => assert_eq!(tag, auth::answer(&secret, 77)),
        _ => panic!("expected an authenticate message"),
    }

    let acts = c.step(ClientEvent::Message(ServerMessage::Hello { assigned_port: 2000 }));
    assert!(acts.is_empty());
    assert_eq!(c.state(), ClientState::Registered { port: 2000 });

    // Heartbeats keep the session alive and do nothing else.
    assert!(c.step(ClientEvent::Message(ServerMessage::Heartbeat)).is_empty());

    // Every announcement fans out one claim.
    let acts = c.step(ClientEvent::Message(ServerMessage::Connection { connection_id: 9 }));
    assert_eq!(acts, vec![ClientAction::Claim { connection_id: 9 }]);
    assert_eq!(c.state(), ClientState::Registered { port: 2000 });
}

#[test]
fn client_without_secret_cannot_answer_a_challenge() {
    let mut c = ClientSession::new(None, 0);
    assert!(c.answer_message(5).is_none());
    let acts = c.step(ClientEvent::Message(ServerMessage::Challenge { nonce: 5 }));
    assert_eq!(acts, vec![ClientAction::Fail { error: TunnelError::Authentication }]);
    assert_eq!(c.state(), ClientState::Closed);
}

#[test]
fn client_surfaces_relay_errors_and_closes() {
    let mut c = ClientSession::new(None, 0);
    let acts = c.step(ClientEvent::Message(ServerMessage::Error {
        message: vec![error_code(TunnelError::Allocation)],
    }));
    assert_eq!(acts, vec![ClientAction::Fail { error: TunnelError::Allocation }]);
    assert_eq!(c.state(), ClientState::Closed);
    assert!(c.step(ClientEvent::ControlClosed).is_empty());

    let mut c2 = ClientSession::new(None, 0);
    let acts = c2.step(ClientEvent::ControlClosed);
    assert_eq!(acts, vec![ClientAction::Fail { error: TunnelError::Transport }]);

    let mut c3 = ClientSession::new(None, 0);
    let acts = c3.step(ClientEvent::Message(ServerMessage::Connection { connection_id: 1 }));
    assert_eq!(acts, vec![ClientAction::Fail { error: TunnelError::Protocol }]);
}

#[test]
fn error_codes_round_trip() {
    for e in [
        TunnelError::Configuration,
        TunnelError::Authentication,
        TunnelError::Allocation,
        TunnelError::RegistryMiss,
        TunnelError::Transport,
    ] {
        assert_eq!(decode_error(&[error_code(e)]), e);
    }
    assert_eq!(decode_error(&[error_code(TunnelError::Protocol)]), TunnelError::Protocol);
    assert_eq!(decode_error(&[]), TunnelError::Protocol);
    assert_eq!(decode_error(&[200]), TunnelError::Protocol);
}

#[test]
fn forwarder_relays_bytes_untouched() {
    let mut f = Forwarder::new();
    assert!(f.active());
    let out = f.relay_chunk(vec![1, 2, 3]);
    assert_eq!(out, vec![1, 2, 3]);
    let out = f.relay_chunk(vec![]);
    assert!(out.is_empty());
    f.close();
    assert!(!f.active());
}
