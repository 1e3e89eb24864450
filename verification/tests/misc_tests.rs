//! Counters, error codes, snapshots, settings and the harness page.

use medea::api::Event;
use medea::conf::Settings;
use medea::errors::{ErrorCode, ErrorResponse};
use medea::ids::{Counter, PeerId, TrackId};
use medea::pages::generate_html;
use medea::snapshots::RoomSnapshot;
use medea::track::TrackPatchEvent;

#[test]
fn counter_hands_out_increasing_ids() {
    let mut c = Counter::default();
    assert_eq!(c.next_id(), 0);
    assert_eq!(c.next_id(), 1);
    assert_eq!(c.next_id(), 2);
    assert_eq!(c.count, 3);
}

#[test]
fn error_codes_match_their_ranges() {
    assert_eq!(ErrorCode::UnknownError.code(), 1000);
    assert_eq!(ErrorCode::PublishEndpointNotFound.code(), 1001);
    assert_eq!(ErrorCode::PlayEndpointNotFound.code(), 1002);
    assert_eq!(ErrorCode::MemberNotFound.code(), 1003);
    assert_eq!(ErrorCode::RoomNotFound.code(), 1004);
    assert_eq!(ErrorCode::EndpointNotFound.code(), 1005);
    assert_eq!(ErrorCode::NotRoomInSpec.code(), 1100);
    assert_eq!(ErrorCode::NotSourceUri.code(), 1107);
    assert_eq!(ErrorCode::ElementIdIsNotLocal.code(), 1200);
    assert_eq!(ErrorCode::ElementIdIsTooLong.code(), 1201);
    assert_eq!(ErrorCode::MissingFieldsInSrcUri.code(), 1202);
    assert_eq!(ErrorCode::EmptyElementId.code(), 1203);
    assert_eq!(ErrorCode::MemberAlreadyExists.code(), 1300);
    assert_eq!(ErrorCode::EndpointAlreadyExists.code(), 1301);
    assert_eq!(ErrorCode::RoomAlreadyExists.code(), 1302);
}

#[test]
fn error_responses_carry_their_element() {
    let r = ErrorResponse::new(ErrorCode::MemberNotFound, "local://r/m");
    assert_eq!(r.error_code, ErrorCode::MemberNotFound);
    assert_eq!(r.element_id, "local://r/m".to_string());
    assert!(r.unknown_error.is_none());

    let e = ErrorResponse::new_empty(ErrorCode::RoomNotFound);
    assert_eq!(e.element_id, String::new());

    let u = ErrorResponse::unknown("boom");
    assert_eq!(u.error_code, ErrorCode::UnknownError);
    assert_eq!(u.unknown_error, Some("boom".to_string()));
}

#[test]
fn room_snapshot_mirrors_events() {
    let mut snap = RoomSnapshot::new();
    snap.apply_event(&Event::PeerCreated {
        peer_id: PeerId(0),
        sdp_offer: None,
        tracks: vec![],
        ice_servers: vec![],
        force_relay: false,
    });
    assert_eq!(snap.peers.len(), 1);
    snap.apply_event(&Event::SdpAnswerMade {
        peer_id: PeerId(0),
        sdp_answer: "sdpB".to_string(),
    });
    assert_eq!(snap.peers[0].1.sdp_answer, Some("sdpB".to_string()));
    snap.apply_event(&Event::PeersRemoved { peer_ids: vec![PeerId(0)] });
    assert_eq!(snap.peers.len(), 0);
}

#[test]
fn settings_defaults() {
    let s = Settings::default();
    assert_eq!(s.server.client.http.bind_port, 8080);
    assert_eq!(s.server.control.grpc.bind_port, 6565);
    assert_eq!(s.rpc.idle_timeout_ms, 10_000);
    assert_eq!(s.server.client.http.bind_addr(), "0.0.0.0:8080".to_string());
}

#[test]
fn generate_html_wraps_the_script() {
    let html = generate_html("alert(1)");
    assert!(html.starts_with("<html><head>"));
    assert!(html.ends_with("</script><script>mocha.run()</script></body></html>"));
    assert!(html.contains("<script>mocha.setup('bdd')</script><script>alert(1)</script>"));
    let head = "<html><head><meta http-equiv=\"Content-type\" content=\"text/html; charset=utf-8\"/><title>e2e test</title><link rel=\"stylesheet\" href=\"https://cdnjs.cloudflare.com/ajax/libs/mocha/6.2.0/mocha.css\"></head><body><div id=\"mocha\"></div><script src=\"https://cdnjs.cloudflare.com/ajax/libs/mocha/6.2.0/mocha.js\"></script><script src=\"https://cdnjs.cloudflare.com/ajax/libs/chai/4.2.0/chai.js\"></script><script>mocha.setup('bdd')</script><script>";
    let tail = "</script><script>mocha.run()</script></body></html>";
    assert_eq!(html, format!("{}alert(1){}", head, tail));
}

#[test]
fn ice_user_servers_list_has_both_urls() {
    let u = medea::ice::IceUser {
        address: "turn.example:3478".to_string(),
        user: "u0".to_string(),
        pass: "p0".to_string(),
    };
    let servers = u.servers_list();
    assert_eq!(servers.len(), 1);
    assert_eq!(servers[0].urls.len(), 2);
    assert_eq!(servers[0].urls[0], "turn:turn.example:3478".to_string());
    assert_eq!(servers[0].urls[1], "turn:turn.example:3478?transport=tcp".to_string());
    assert_eq!(servers[0].username, "u0".to_string());
    assert_eq!(servers[0].credential, "p0".to_string());
}

#[test]
fn patch_merge_later_fields_win() {
    let mut a = TrackPatchEvent::new(TrackId(4));
    a.merge(&TrackPatchEvent {
        id: TrackId(4),
        enabled_individual: Some(true),
        enabled_general: None,
    });
    a.merge(&TrackPatchEvent {
        id: TrackId(4),
        enabled_individual: None,
        enabled_general: Some(false),
    });
    assert_eq!(a.enabled_individual, Some(true));
    assert_eq!(a.enabled_general, Some(false));
    a.merge(&TrackPatchEvent {
        id: TrackId(4),
        enabled_individual: Some(false),
        enabled_general: None,
    });
    assert_eq!(a.enabled_individual, Some(false));
    assert_eq!(a.enabled_general, Some(false));
}
