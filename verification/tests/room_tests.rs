//! Rooms end to end: the offer/answer path, mute dedup, reconnect grace
//! and partial TURN failure.

use medea::api::Event;
use medea::endpoint::{
    P2pMode, PublishAudioSettings, PublishVideoSettings, SrcUri, WebRtcPlayEndpoint,
    WebRtcPlaySpec, WebRtcPublishEndpoint, WebRtcPublishSpec,
};
use medea::errors::{ClosedReason, RoomError, TurnServiceErr};
use medea::ice::{IceUser, TurnAuthService, UnreachablePolicy};
use medea::ids::{EndpointId, MemberId, PeerId, RoomId, TrackId};
use medea::member::{MemberSpec, RoomSpec};
use medea::members_manager::{ClosedOutcome, ConnectOutcome, MembersManager, RpcConnection};
use medea::room::Room;
use medea::track::{PublishPolicy, TrackPatchCommand, TrackUpdate};

/// A TURN service for tests: hands out predictable credentials and can be
/// told to fail from a given request on.
struct TestTurn {
    calls: u32,
    fail_from_call: u32,
}

impl TurnAuthService for TestTurn {
    fn create_user(
        &mut self,
        _room_id: &RoomId,
        peer_id: PeerId,
        _policy: UnreachablePolicy,
    ) -> Result<IceUser, TurnServiceErr> {
        self.calls += 1;
        if self.calls >= self.fail_from_call {
            Err(TurnServiceErr::Unavailable)
        } else {
            Ok(IceUser {
                address: "turn.test:3478".to_string(),
                user: format!("u{}", peer_id.0),
                pass: "p".to_string(),
            })
        }
    }

    fn create_member_user(
        &mut self,
        _room_id: &RoomId,
        member_id: &MemberId,
        _policy: UnreachablePolicy,
    ) -> Result<IceUser, TurnServiceErr> {
        self.calls += 1;
        if self.calls >= self.fail_from_call {
            Err(TurnServiceErr::Unavailable)
        } else {
            Ok(IceUser {
                address: "turn.test:3478".to_string(),
                user: member_id.0.clone(),
                pass: "p".to_string(),
            })
        }
    }

    fn delete_users(&mut self, _users: Vec<IceUser>) -> Result<(), TurnServiceErr> {
        Ok(())
    }
}

fn working_turn() -> TestTurn {
    TestTurn { calls: 0, fail_from_call: u32::MAX }
}

fn publish_spec() -> WebRtcPublishSpec {
    WebRtcPublishSpec {
        p2p: P2pMode::Always,
        audio_settings: PublishAudioSettings { publish_policy: PublishPolicy::Optional },
        video_settings: PublishVideoSettings { publish_policy: PublishPolicy::Optional },
        force_relay: false,
    }
}

fn r1_spec() -> RoomSpec {
    RoomSpec {
        id: RoomId("r1".to_string()),
        members: vec![
            (
                MemberId("alice".to_string()),
                MemberSpec::new(
                    vec![(EndpointId("publish".to_string()), publish_spec())],
                    vec![],
                    Some("alice-secret".to_string()),
                ),
            ),
            (
                MemberId("bob".to_string()),
                MemberSpec::new(
                    vec![],
                    vec![(
                        EndpointId("play".to_string()),
                        WebRtcPlaySpec {
                            src: SrcUri {
                                room_id: RoomId("r1".to_string()),
                                member_id: MemberId("alice".to_string()),
                                endpoint_id: EndpointId("publish".to_string()),
                            },
                            force_relay: false,
                        },
                    )],
                    Some("bob-secret".to_string()),
                ),
            ),
        ],
    }
}

/// Connects alice and bob and runs the edge scan; returns the room after
/// the initial `PeerCreated` went to alice.
fn connected_room() -> Room {
    let mut room = Room::new(&r1_spec(), 10_000).unwrap();
    let alice = MemberId("alice".to_string());
    let bob = MemberId("bob".to_string());
    assert_eq!(
        room.members.connection_established(&alice, RpcConnection(1)).unwrap(),
        ConnectOutcome::NewSession
    );
    assert_eq!(
        room.members.connection_established(&bob, RpcConnection(2)).unwrap(),
        ConnectOutcome::NewSession
    );
    let mut turn = working_turn();
    let events = room.connect_members_peers(&mut turn).unwrap();
    assert_eq!(events.len(), 1);
    assert_eq!(events[0].0 .0, "alice".to_string());
    match &events[0].1 {
        Event::PeerCreated { peer_id, sdp_offer, tracks, ice_servers, force_relay } => {
            assert_eq!(*peer_id, PeerId(0));
            assert!(sdp_offer.is_none());
            assert_eq!(tracks.len(), 3);
            assert_eq!(ice_servers.len(), 1);
            assert!(!force_relay);
        }
        other => panic!("expected the offerer's PeerCreated, got {:?}", other),
    }
    room
}

#[test]
fn offer_answer_happy_path() {
    let mut room = connected_room();

    let mids = vec![
        (TrackId(0), "0".to_string()),
        (TrackId(1), "1".to_string()),
        (TrackId(2), "2".to_string()),
    ];
    let events = room.on_make_sdp_offer(PeerId(0), "sdpA".to_string(), &mids).unwrap();
    assert_eq!(events.len(), 1);
    assert_eq!(events[0].0 .0, "bob".to_string());
    match &events[0].1 {
        Event::PeerCreated { peer_id, sdp_offer, tracks, .. } => {
            assert_eq!(*peer_id, PeerId(1));
            assert_eq!(sdp_offer.clone().unwrap(), "sdpA".to_string());
            assert_eq!(tracks.len(), 3);
        }
        other => panic!("expected bob's PeerCreated, got {:?}", other),
    }

    let events = room.on_make_sdp_answer(PeerId(1), "sdpB".to_string()).unwrap();
    assert_eq!(events.len(), 1);
    assert_eq!(events[0].0 .0, "alice".to_string());
    match &events[0].1 {
        Event::SdpAnswerMade { peer_id, sdp_answer } => {
            assert_eq!(*peer_id, PeerId(0));
            assert_eq!(sdp_answer, &"sdpB".to_string());
        }
        other => panic!("expected alice's SdpAnswerMade, got {:?}", other),
    }

    assert!(room.peers.get_peer_by_id(PeerId(0)).unwrap().is_stable());
    assert!(room.peers.get_peer_by_id(PeerId(1)).unwrap().is_stable());
}

#[test]
fn mute_dedup_emits_one_patch_without_negotiation() {
    let mut room = connected_room();
    let mids = vec![
        (TrackId(0), "0".to_string()),
        (TrackId(1), "1".to_string()),
        (TrackId(2), "2".to_string()),
    ];
    room.on_make_sdp_offer(PeerId(0), "sdpA".to_string(), &mids).unwrap();
    room.on_make_sdp_answer(PeerId(1), "sdpB".to_string()).unwrap();

    let patches = vec![
        TrackPatchCommand { id: TrackId(1), enabled: Some(false) },
        TrackPatchCommand { id: TrackId(1), enabled: Some(true) },
        TrackPatchCommand { id: TrackId(1), enabled: Some(false) },
    ];
    let events = room.on_update_tracks(PeerId(0), &patches).unwrap();
    let alice_event = events
        .iter()
        .find(|(m, _)| m.0 == "alice".to_string())
        .map(|(_, e)| e)
        .unwrap();
    match alice_event {
        Event::TracksApplied { peer_id, updates, negotiation_role } => {
            assert_eq!(*peer_id, PeerId(0));
            assert!(negotiation_role.is_none());
            assert_eq!(updates.len(), 1);
            match &updates[0] {
                TrackUpdate::Updated(p) => {
                    assert_eq!(p.id, TrackId(1));
                    assert_eq!(p.enabled_individual, Some(false));
                }
                other => panic!("expected the merged patch, got {:?}", other),
            }
        }
        other => panic!("expected TracksApplied, got {:?}", other),
    }
}

#[test]
fn reconnect_grace_keeps_the_session() {
    let mut room = Room::new(&r1_spec(), 10_000).unwrap();
    let alice = MemberId("alice".to_string());
    let mut turn = working_turn();

    // the first connection opens the session and issues a credential
    let (outcome, replaced) =
        room.connection_established(&alice, RpcConnection(7), &mut turn).unwrap();
    assert_eq!(outcome, ConnectOutcome::NewSession);
    assert!(replaced.is_none());
    // the connection is lost: a grace timer starts, nothing is released
    match room.members.connection_closed(&alice, ClosedReason::Lost) {
        ClosedOutcome::GraceInstalled(ms) => assert_eq!(ms, 10_000),
        other => panic!("expected the grace period, got {:?}", other),
    }
    // reconnection before the timer fires: the old connection is handed
    // back to close, the session and its credential carry on
    match room.connection_established(&alice, RpcConnection(8), &mut turn).unwrap() {
        (ConnectOutcome::ReplacedOld(old), None) => assert_eq!(old, RpcConnection(7)),
        other => panic!("expected the prior connection back, got {:?}", other),
    }
    assert!(room.members.member_has_connection(&alice));
    // losing it again and letting the timer fire ends the session, and the
    // credential issued at the start comes back to be released
    match room.members.connection_closed(&alice, ClosedReason::Lost) {
        ClosedOutcome::GraceInstalled(_) => {}
        other => panic!("expected the grace period, got {:?}", other),
    }
    match room.members.connection_closed(&alice, ClosedReason::Closed) {
        ClosedOutcome::Removed(ice) => {
            let user = ice.expect("the session held a credential to release");
            assert_eq!(user.user, "alice".to_string());
        }
        other => panic!("expected the session to end, got {:?}", other),
    }
    assert!(!room.members.member_has_connection(&alice));
}

#[test]
fn turn_failure_installs_no_peers() {
    let mut room = Room::new(&r1_spec(), 10_000).unwrap();
    let alice = MemberId("alice".to_string());
    let bob = MemberId("bob".to_string());
    room.members.connection_established(&alice, RpcConnection(1)).unwrap();
    room.members.connection_established(&bob, RpcConnection(2)).unwrap();

    // the second credential request fails
    let mut turn = TestTurn { calls: 0, fail_from_call: 2 };
    let result = room.connect_members_peers(&mut turn);
    match result {
        Err(RoomError::TurnServiceErr(TurnServiceErr::Unavailable)) => {}
        other => panic!("expected the TURN failure to surface, got {:?}", other),
    }
    assert_eq!(room.peers.peers.len(), 0);
}

#[test]
fn connect_endpoints_direct_turn_failure() {
    let mut room = Room::new(&r1_spec(), 10_000).unwrap();
    let src = WebRtcPublishEndpoint {
        id: EndpointId("publish".to_string()),
        p2p: P2pMode::Always,
        audio_settings: PublishAudioSettings { publish_policy: PublishPolicy::Optional },
        video_settings: PublishVideoSettings { publish_policy: PublishPolicy::Optional },
        is_force_relayed: false,
        peer_ids: vec![],
        receivers: vec![],
    };
    let sink = WebRtcPlayEndpoint {
        id: EndpointId("play".to_string()),
        src: SrcUri {
            room_id: RoomId("r1".to_string()),
            member_id: MemberId("alice".to_string()),
            endpoint_id: EndpointId("publish".to_string()),
        },
        is_force_relayed: false,
        peer_id: None,
    };
    let mut turn = TestTurn { calls: 0, fail_from_call: 1 };
    let result = room.peers.connect_endpoints(
        &src,
        &MemberId("alice".to_string()),
        &sink,
        &MemberId("bob".to_string()),
        &mut turn,
    );
    assert!(result.is_err());
    assert_eq!(room.peers.peers.len(), 0);
}

#[test]
fn delete_member_removes_both_peers() {
    let mut room = connected_room();
    let (events, freed) = room.delete_member(&MemberId("alice".to_string()));
    // both peers of the pair held a TURN credential; both come back
    assert_eq!(freed.len(), 2);
    // one entry per removed peer: alice's and its partner, bob's
    assert_eq!(events.len(), 2);
    let alice_event = events.iter().find(|(m, _)| m.0 == "alice".to_string()).unwrap();
    let bob_event = events.iter().find(|(m, _)| m.0 == "bob".to_string()).unwrap();
    match &alice_event.1 {
        Event::PeersRemoved { peer_ids } => assert_eq!(peer_ids, &vec![PeerId(0)]),
        other => panic!("expected PeersRemoved, got {:?}", other),
    }
    match &bob_event.1 {
        Event::PeersRemoved { peer_ids } => assert_eq!(peer_ids, &vec![PeerId(1)]),
        other => panic!("expected PeersRemoved, got {:?}", other),
    }
    assert_eq!(room.peers.peers.len(), 0);
}

#[test]
fn authorize_checks_credentials() {
    let room = Room::new(&r1_spec(), 10_000).unwrap();
    let alice = MemberId("alice".to_string());
    assert!(room.members.authorize(&alice, &"alice-secret".to_string()).is_ok());
    assert_eq!(
        room.members.authorize(&alice, &"wrong".to_string()),
        Err(medea::errors::AuthorizationError::InvalidCredentials)
    );
    assert_eq!(
        room.members.authorize(&MemberId("nobody".to_string()), &"x".to_string()),
        Err(medea::errors::AuthorizationError::MemberNotExists)
    );
}
