//! The member graph: loading from a spec and endpoint removal.

use medea::endpoint::{
    P2pMode, PublishAudioSettings, PublishVideoSettings, SrcUri, WebRtcPlaySpec,
    WebRtcPublishSpec,
};
use medea::ids::{EndpointId, MemberId, RoomId};
use medea::member::{parse_participants, Member, MemberSpec, RoomSpec};
use medea::track::PublishPolicy;

fn publish_spec() -> WebRtcPublishSpec {
    WebRtcPublishSpec {
        p2p: P2pMode::Always,
        audio_settings: PublishAudioSettings { publish_policy: PublishPolicy::Optional },
        video_settings: PublishVideoSettings { publish_policy: PublishPolicy::Optional },
        force_relay: false,
    }
}

fn play_spec(room: &str, member: &str, endpoint: &str) -> WebRtcPlaySpec {
    WebRtcPlaySpec {
        src: SrcUri {
            room_id: RoomId(room.to_string()),
            member_id: MemberId(member.to_string()),
            endpoint_id: EndpointId(endpoint.to_string()),
        },
        force_relay: false,
    }
}

/// The spec of the test room: `caller` and `some-member` publish, and
/// `responder` plays from both.
fn test_room_spec() -> RoomSpec {
    RoomSpec {
        id: RoomId("test-call".to_string()),
        members: vec![
            (
                MemberId("caller".to_string()),
                MemberSpec::new(
                    vec![(EndpointId("publish".to_string()), publish_spec())],
                    vec![],
                    Some("test".to_string()),
                ),
            ),
            (
                MemberId("some-member".to_string()),
                MemberSpec::new(
                    vec![(EndpointId("publish".to_string()), publish_spec())],
                    vec![],
                    Some("test".to_string()),
                ),
            ),
            (
                MemberId("responder".to_string()),
                MemberSpec::new(
                    vec![],
                    vec![
                        (
                            EndpointId("play".to_string()),
                            play_spec("test-call", "caller", "publish"),
                        ),
                        (
                            EndpointId("play2".to_string()),
                            play_spec("test-call", "some-member", "publish"),
                        ),
                    ],
                    Some("test".to_string()),
                ),
            ),
        ],
    }
}

fn get_test_store() -> Vec<Member> {
    parse_participants(&test_room_spec()).unwrap()
}

fn member<'a>(store: &'a Vec<Member>, id: &str) -> &'a Member {
    store.iter().find(|m| m.id.0 == id).unwrap()
}

#[test]
fn load_store() {
    let store = get_test_store();

    let caller = member(&store, "caller");
    let responder = member(&store, "responder");

    let caller_publish_endpoint =
        caller.get_publisher_by_id(&EndpointId("publish".to_string())).unwrap();
    let responder_play_endpoint =
        responder.get_receiver_by_id(&EndpointId("play".to_string())).unwrap();

    let caller_receivers = &caller_publish_endpoint.receivers;
    assert_eq!(caller_receivers.len(), 1);
    assert_eq!(caller_receivers[0].0 .0, "responder".to_string());
    assert_eq!(caller_receivers[0].1 .0, "play".to_string());

    assert_eq!(responder_play_endpoint.src.member_id.0, "caller".to_string());
    assert_eq!(responder_play_endpoint.src.endpoint_id.0, "publish".to_string());

    let some_participant = member(&store, "some-member");
    assert!(some_participant.receivers.is_empty());
    assert_eq!(some_participant.publishers.len(), 1);

    let responder_play2_endpoint =
        responder.get_receiver_by_id(&EndpointId("play2".to_string())).unwrap();
    assert_eq!(responder_play2_endpoint.src.member_id.0, "some-member".to_string());
    let some_participant_publisher =
        some_participant.get_publisher_by_id(&EndpointId("publish".to_string())).unwrap();
    assert_eq!(some_participant_publisher.receivers.len(), 1);
    assert_eq!(some_participant_publisher.receivers[0].0 .0, "responder".to_string());
    assert_eq!(some_participant_publisher.receivers[0].1 .0, "play2".to_string());
}

#[test]
fn publisher_delete_all_their_players() {
    let mut store = get_test_store();

    medea::member::remove_publisher(
        &mut store,
        &MemberId("caller".to_string()),
        &EndpointId("publish".to_string()),
    );
    assert_eq!(member(&store, "responder").receivers.len(), 1);

    medea::member::remove_publisher(
        &mut store,
        &MemberId("some-member".to_string()),
        &EndpointId("publish".to_string()),
    );
    assert_eq!(member(&store, "responder").receivers.len(), 0);
}

#[test]
fn player_delete_self_from_publisher_sink() {
    let mut store = get_test_store();

    medea::member::remove_receiver(
        &mut store,
        &MemberId("responder".to_string()),
        &EndpointId("play".to_string()),
    );
    {
        let caller_publisher = member(&store, "caller")
            .get_publisher_by_id(&EndpointId("publish".to_string()))
            .unwrap();
        assert_eq!(caller_publisher.receivers.len(), 0);
        let some_member_publisher = member(&store, "some-member")
            .get_publisher_by_id(&EndpointId("publish".to_string()))
            .unwrap();
        assert_eq!(some_member_publisher.receivers.len(), 1);
    }

    medea::member::remove_receiver(
        &mut store,
        &MemberId("responder".to_string()),
        &EndpointId("play2".to_string()),
    );
    let caller_publisher = member(&store, "caller")
        .get_publisher_by_id(&EndpointId("publish".to_string()))
        .unwrap();
    assert_eq!(caller_publisher.receivers.len(), 0);
    let some_member_publisher = member(&store, "some-member")
        .get_publisher_by_id(&EndpointId("publish".to_string()))
        .unwrap();
    assert_eq!(some_member_publisher.receivers.len(), 0);
}

#[test]
fn missing_publisher_is_reported() {
    let mut spec = test_room_spec();
    spec.members[2].1.play_endpoints[0].1.src.member_id = MemberId("nobody".to_string());
    match parse_participants(&spec) {
        Err(medea::errors::MembersLoadError::MemberNotFound(id)) => {
            assert_eq!(id.0, "nobody".to_string());
        }
        other => panic!("expected a missing member, got {:?}", other),
    }
}

#[test]
fn generated_credentials_are_alphanumeric() {
    let spec = MemberSpec::new(vec![], vec![], None);
    assert_eq!(spec.credentials.len(), 32);
    assert!(spec.credentials.chars().all(|c| c.is_ascii_alphanumeric()));
}
