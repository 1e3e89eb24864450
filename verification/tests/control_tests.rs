//! The Control API: URI parsing, delete validation and request routing.

use medea::control_api::{ControlApiClient, CreateRequest, ElementSpec, IdRequest};
use medea::errors::{ErrorCode, LocalUriParseError, RoomServiceError};
use medea::ids::RoomId;
use medea::local_uri::{parse_local_uri, StatefulLocalUri};
use medea::member::{MemberSpec, RoomSpec};
use medea::room_service::{DeleteElements, RoomRepository, RoomService};

fn parse(uri: &str) -> StatefulLocalUri {
    parse_local_uri(uri).unwrap()
}

#[test]
fn empty_uris_list() {
    let elements = DeleteElements::new();
    match elements.validate() {
        Ok(_) => panic!("validation should fail with an empty list but returned Ok"),
        Err(e) => match e {
            RoomServiceError::EmptyUrisList => (),
            other => panic!("validation failed with the wrong error: {:?}", other),
        },
    }
}

#[test]
fn error_if_not_same_room_ids() {
    let mut elements = DeleteElements::new();
    elements.add_uri(parse("local://room_id/member"));
    elements.add_uri(parse("local://another_room_id/member"));

    match elements.validate() {
        Ok(_) => panic!("validation should fail with mixed room IDs but returned Ok"),
        Err(e) => match e {
            RoomServiceError::NotSameRoomIds(first, another) => {
                assert_eq!(first.0, "room_id".to_string());
                assert_eq!(another.0, "another_room_id".to_string());
            }
            other => panic!("validation failed with the wrong error: {:?}", other),
        },
    }
}

#[test]
fn success_if_all_ok() {
    let mut elements = DeleteElements::new();
    elements.add_uri(parse("local://room_id/member_id"));
    elements.add_uri(parse("local://room_id/another_member_id"));
    elements.add_uri(parse("local://room_id/member_id/endpoint_id"));
    assert!(elements.validate().is_ok());
}

#[test]
fn parse_uri_shapes() {
    match parse("local://r1") {
        StatefulLocalUri::Room { room_id } => assert_eq!(room_id.0, "r1".to_string()),
        other => panic!("expected a room URI, got {:?}", other),
    }
    match parse("local://r1/a") {
        StatefulLocalUri::Member { room_id, member_id } => {
            assert_eq!(room_id.0, "r1".to_string());
            assert_eq!(member_id.0, "a".to_string());
        }
        other => panic!("expected a member URI, got {:?}", other),
    }
    match parse("local://r1/a/pub") {
        StatefulLocalUri::Endpoint { room_id, member_id, endpoint_id } => {
            assert_eq!(room_id.0, "r1".to_string());
            assert_eq!(member_id.0, "a".to_string());
            assert_eq!(endpoint_id.0, "pub".to_string());
        }
        other => panic!("expected an endpoint URI, got {:?}", other),
    }
}

#[test]
fn parse_uri_errors() {
    assert!(matches!(parse_local_uri(""), Err(LocalUriParseError::Empty)));
    assert!(matches!(
        parse_local_uri("l0cal://room"),
        Err(LocalUriParseError::NotLocal(_))
    ));
    assert!(matches!(
        parse_local_uri("local://a/b/c/d"),
        Err(LocalUriParseError::TooManyFields(_))
    ));
    assert!(matches!(
        parse_local_uri("local://a//c"),
        Err(LocalUriParseError::MissingFields(_))
    ));
    assert!(matches!(
        parse_local_uri("local://"),
        Err(LocalUriParseError::MissingFields(_))
    ));
    assert!(matches!(
        parse_local_uri("local://a/"),
        Err(LocalUriParseError::MissingFields(_))
    ));
}

/// A TURN service stub: requests never fail and releases are accepted.
struct NoTurn;

impl medea::ice::TurnAuthService for NoTurn {
    fn create_user(
        &mut self,
        _room_id: &medea::ids::RoomId,
        peer_id: medea::ids::PeerId,
        _policy: medea::ice::UnreachablePolicy,
    ) -> Result<medea::ice::IceUser, medea::errors::TurnServiceErr> {
        Ok(medea::ice::IceUser {
            address: "turn.test:3478".to_string(),
            user: format!("u{}", peer_id.0),
            pass: "p".to_string(),
        })
    }

    fn create_member_user(
        &mut self,
        _room_id: &medea::ids::RoomId,
        member_id: &medea::ids::MemberId,
        _policy: medea::ice::UnreachablePolicy,
    ) -> Result<medea::ice::IceUser, medea::errors::TurnServiceErr> {
        Ok(medea::ice::IceUser {
            address: "turn.test:3478".to_string(),
            user: member_id.0.clone(),
            pass: "p".to_string(),
        })
    }

    fn delete_users(
        &mut self,
        _users: Vec<medea::ice::IceUser>,
    ) -> Result<(), medea::errors::TurnServiceErr> {
        Ok(())
    }
}

fn empty_room_spec(id: &str) -> RoomSpec {
    RoomSpec { id: RoomId(id.to_string()), members: vec![] }
}

#[test]
fn delete_scope_is_checked_before_any_room() {
    let service = RoomService::new(RoomRepository::new(), 10_000);
    let mut client = ControlApiClient::new(service);

    let create = CreateRequest {
        id: "local://r1".to_string(),
        spec: ElementSpec::Room(empty_room_spec("r1")),
    };
    assert!(client.create(&create).error.is_none());
    let create2 = CreateRequest {
        id: "local://r2".to_string(),
        spec: ElementSpec::Room(empty_room_spec("r2")),
    };
    assert!(client.create(&create2).error.is_none());

    let del = IdRequest { ids: vec!["local://r1/a".to_string(), "local://r2/b".to_string()] };
    let mut turn = NoTurn;
    let resp = client.delete(&del, &mut turn);
    assert!(resp.error.is_some());
    // both rooms are still there: the batch was refused whole
    let get = client.get(&IdRequest {
        ids: vec!["local://r1".to_string(), "local://r2".to_string()],
    });
    assert!(get.error.is_none());
    assert_eq!(get.elements.len(), 2);
}

#[test]
fn create_checks_uri_depth_against_spec_kind() {
    let service = RoomService::new(RoomRepository::new(), 10_000);
    let mut client = ControlApiClient::new(service);
    let req = CreateRequest {
        id: "local://r1/a".to_string(),
        spec: ElementSpec::Room(empty_room_spec("r1")),
    };
    let resp = client.create(&req);
    let err = resp.error.unwrap();
    assert_eq!(err.code(), 1104);
    assert_eq!(err.error_code, ErrorCode::ElementIdForMemberButElementIsNot);
}

#[test]
fn create_member_returns_its_sid() {
    let service = RoomService::new(RoomRepository::new(), 10_000);
    let mut client = ControlApiClient::new(service);
    let create = CreateRequest {
        id: "local://r1".to_string(),
        spec: ElementSpec::Room(empty_room_spec("r1")),
    };
    assert!(client.create(&create).error.is_none());

    let member = CreateRequest {
        id: "local://r1/alice".to_string(),
        spec: ElementSpec::Member(MemberSpec::new(vec![], vec![], Some("secret".to_string()))),
    };
    let resp = client.create(&member);
    assert!(resp.error.is_none());
    assert_eq!(resp.sid.len(), 1);
    assert_eq!(resp.sid[0].0, "alice".to_string());
    assert_eq!(resp.sid[0].1, "r1/alice/secret".to_string());
}

#[test]
fn room_conflict_is_reported() {
    let service = RoomService::new(RoomRepository::new(), 10_000);
    let mut client = ControlApiClient::new(service);
    let create = CreateRequest {
        id: "local://r1".to_string(),
        spec: ElementSpec::Room(empty_room_spec("r1")),
    };
    assert!(client.create(&create).error.is_none());
    let resp = client.create(&create);
    let err = resp.error.unwrap();
    assert_eq!(err.code(), 1302);
}

#[test]
fn apply_replaces_a_room() {
    let service = RoomService::new(RoomRepository::new(), 10_000);
    let mut client = ControlApiClient::new(service);
    let create = CreateRequest {
        id: "local://r1".to_string(),
        spec: ElementSpec::Room(empty_room_spec("r1")),
    };
    assert!(client.create(&create).error.is_none());
    let mut turn = NoTurn;
    assert!(client.apply(&create, &mut turn).error.is_none());
    let get = client.get(&IdRequest { ids: vec!["local://r1".to_string()] });
    assert_eq!(get.elements.len(), 1);
}
