//! The peer state machine: scheduling, committing, forcing and dedup.

use medea::ids::{MemberId, PeerId, TrackId};
use medea::peer::{
    Peer, PeerNotification, PeerStateMachine, Stable, TrackChange, TrackPatchDeduper,
};
use medea::track::{
    MediaSourceKind, MediaTrack, MediaType, TrackPatchCommand, TrackPatchEvent, VideoSettings,
};

fn media_track(track_id: u32) -> MediaTrack {
    MediaTrack::new(
        TrackId(track_id),
        MediaType::Video(VideoSettings { required: true, source_kind: MediaSourceKind::Device }),
    )
}

fn test_peer() -> Peer<Stable> {
    Peer::<Stable>::new(
        PeerId(0),
        MemberId("member-1".to_string()),
        PeerId(1),
        MemberId("member-2".to_string()),
        false,
    )
}

#[test]
fn scheduled_changes_normally_ran() {
    let mut peer = PeerStateMachine::Stable(test_peer());
    peer.schedule_change(TrackChange::AddRecvTrack(media_track(0)));
    peer.schedule_change(TrackChange::AddSendTrack(media_track(1)));

    assert!(peer.senders().is_empty());
    assert!(peer.receivers().is_empty());

    let note = peer.commit_scheduled_changes();

    assert_eq!(note, Some(PeerId(0)));
    assert_eq!(peer.senders().len(), 1);
    assert_eq!(peer.receivers().len(), 1);
}

#[test]
fn scheduled_changes_will_be_ran_on_stable() {
    let peer = test_peer();
    let mut peer = peer.start_as_offerer();
    peer.context.track_changes_queue.push(TrackChange::AddSendTrack(media_track(0)));
    peer.context.track_changes_queue.push(TrackChange::AddRecvTrack(media_track(1)));
    assert!(peer.context.senders.is_empty());
    assert!(peer.context.receivers.is_empty());

    let peer = peer.set_local_offer(String::new());
    assert!(peer.context.senders.is_empty());
    assert!(peer.context.receivers.is_empty());

    let (peer, note) = peer.set_remote_answer(String::new());
    assert_eq!(peer.context.receivers.len(), 1);
    assert_eq!(peer.context.senders.len(), 1);
    assert_eq!(peer.context.pending_track_updates.len(), 2);
    assert_eq!(peer.context.track_changes_queue.len(), 0);
    assert_eq!(note, Some(PeerId(0)));
}

#[test]
fn force_updates_works() {
    let mut peer = PeerStateMachine::Stable(test_peer());
    peer.schedule_change(TrackChange::AddSendTrack(media_track(0)));
    peer.schedule_change(TrackChange::AddRecvTrack(media_track(1)));
    let _ = peer.commit_scheduled_changes();
    let stable = match peer {
        PeerStateMachine::Stable(p) => p,
        _ => panic!("peer should be stable"),
    };
    let mut peer = PeerStateMachine::WaitLocalSdp(stable.start_as_offerer());

    peer.patch_tracks(&vec![
        TrackPatchCommand { id: TrackId(0), enabled: Some(false) },
        TrackPatchCommand { id: TrackId(1), enabled: Some(false) },
    ]);
    let note = peer.force_commit_scheduled_changes();
    match note {
        Some(PeerNotification::ForceUpdate(peer_id, changes)) => {
            assert_eq!(peer_id, PeerId(0));
            assert_eq!(changes.len(), 2);
        }
        other => panic!("expected a force update, got {:?}", other),
    }
    assert!(peer.scheduled_changes_len() == 0);

    let wait_local = match peer {
        PeerStateMachine::WaitLocalSdp(p) => p,
        _ => panic!("peer should wait for its local offer"),
    };
    let peer = wait_local.set_local_offer(String::new());
    let (_, note) = peer.set_remote_answer(String::new());
    assert_eq!(note, None);
}

#[test]
fn track_patch_dedup_works() {
    let mut peer = PeerStateMachine::Stable(test_peer());
    peer.patch_tracks(&vec![
        TrackPatchCommand { id: TrackId(1), enabled: Some(false) },
        TrackPatchCommand { id: TrackId(2), enabled: None },
        TrackPatchCommand { id: TrackId(1), enabled: Some(true) },
        TrackPatchCommand { id: TrackId(2), enabled: Some(false) },
        TrackPatchCommand { id: TrackId(2), enabled: Some(true) },
        TrackPatchCommand { id: TrackId(2), enabled: None },
        TrackPatchCommand { id: TrackId(1), enabled: None },
    ]);
    let _ = peer.commit_scheduled_changes();
    let peer = match peer {
        PeerStateMachine::Stable(p) => p,
        _ => panic!("peer should be in a stable state"),
    };

    let mut track_patches_after: Vec<TrackPatchEvent> = peer
        .context
        .pending_track_updates
        .iter()
        .filter_map(|t| match t {
            TrackChange::TrackPatch(patch) => Some(*patch),
            _ => None,
        })
        .collect();

    let second_track_patch = track_patches_after.pop().unwrap();
    assert_eq!(second_track_patch.enabled_individual, Some(true));

    let first_track_patch = track_patches_after.pop().unwrap();
    assert_eq!(first_track_patch.enabled_general, None);

    assert!(track_patches_after.is_empty());
}

#[test]
fn ice_restart_dedupping_works() {
    let changes = vec![
        TrackChange::IceRestart,
        TrackChange::IceRestart,
        TrackChange::IceRestart,
        TrackChange::TrackPatch(TrackPatchEvent {
            id: TrackId(0),
            enabled_individual: None,
            enabled_general: None,
        }),
        TrackChange::IceRestart,
        TrackChange::TrackPatch(TrackPatchEvent {
            id: TrackId(0),
            enabled_individual: None,
            enabled_general: None,
        }),
    ];

    let mut peer = test_peer();
    peer.context.pending_track_updates = changes;

    peer.dedup_ice_restarts();

    let deduped_track_updates = peer.context.pending_track_updates;
    assert_eq!(deduped_track_updates.len(), 3);
    assert!(matches!(deduped_track_updates[1], TrackChange::IceRestart));
}

#[test]
fn force_update_dedups_normally() {
    let mut peer = test_peer();
    peer.context.pending_track_updates = vec![
        TrackChange::TrackPatch(TrackPatchEvent {
            id: TrackId(0),
            enabled_general: Some(false),
            enabled_individual: Some(false),
        }),
        TrackChange::TrackPatch(TrackPatchEvent {
            id: TrackId(0),
            enabled_general: Some(true),
            enabled_individual: Some(true),
        }),
        TrackChange::TrackPatch(TrackPatchEvent {
            id: TrackId(1),
            enabled_general: Some(false),
            enabled_individual: Some(false),
        }),
    ];
    let mut peer = PeerStateMachine::Stable(peer);
    peer.patch_tracks(&vec![
        TrackPatchCommand { id: TrackId(0), enabled: Some(false) },
        TrackPatchCommand { id: TrackId(0), enabled: Some(true) },
        TrackPatchCommand { id: TrackId(0), enabled: Some(false) },
    ]);
    let batch = peer.inner_force_commit_all();
    match batch {
        Some(changes) => {
            assert_eq!(changes.len(), 1);
            match &changes[0] {
                medea::track::TrackUpdate::Updated(patch) => {
                    assert_eq!(patch.id, TrackId(0));
                    assert_eq!(patch.enabled_individual, Some(false));
                }
                other => panic!("expected an update, got {:?}", other),
            }
        }
        None => panic!("a force-applied batch was expected"),
    }

    assert_eq!(peer.scheduled_changes_len(), 0);
    let peer = match peer {
        PeerStateMachine::Stable(p) => p,
        _ => panic!("peer should be stable"),
    };
    let mut pending = peer.context.pending_track_updates;
    assert_eq!(pending.len(), 1);
    match pending.pop().unwrap() {
        TrackChange::TrackPatch(patch) => {
            assert_eq!(patch.id, TrackId(1));
            assert_eq!(patch.enabled_general, Some(false));
        }
        other => panic!("expected a patch, got {:?}", other),
    }
}

#[test]
fn whitelisting_works() {
    let mut deduper = TrackPatchDeduper::with_whitelist(vec![TrackId(1)]);
    let filtered_patch = TrackChange::TrackPatch(TrackPatchEvent {
        id: TrackId(2),
        enabled_general: Some(false),
        enabled_individual: Some(false),
    });
    let whitelisted_patch = TrackChange::TrackPatch(TrackPatchEvent {
        id: TrackId(1),
        enabled_general: Some(false),
        enabled_individual: Some(false),
    });
    let mut patches = vec![whitelisted_patch.clone_change(), filtered_patch.clone_change()];
    deduper.drain_merge(&mut patches);
    assert_eq!(patches.len(), 1);
    assert_eq!(patches[0], filtered_patch);

    let merged_changes = deduper.into_inner();
    assert_eq!(merged_changes.len(), 1);
    assert_eq!(merged_changes[0], whitelisted_patch);
}

#[test]
fn merging_works() {
    let mut deduper = TrackPatchDeduper::new();

    let mut changes: Vec<TrackChange> = vec![
        TrackPatchEvent {
            id: TrackId(1),
            enabled_general: Some(true),
            enabled_individual: Some(true),
        },
        TrackPatchEvent {
            id: TrackId(2),
            enabled_general: Some(false),
            enabled_individual: Some(false),
        },
        TrackPatchEvent {
            id: TrackId(1),
            enabled_general: Some(false),
            enabled_individual: Some(false),
        },
        TrackPatchEvent { id: TrackId(1), enabled_general: None, enabled_individual: None },
        TrackPatchEvent {
            id: TrackId(2),
            enabled_general: Some(true),
            enabled_individual: Some(true),
        },
    ]
    .into_iter()
    .map(TrackChange::TrackPatch)
    .collect();
    let unrelated_change = TrackChange::AddSendTrack(media_track(1));
    changes.push(unrelated_change.clone_change());
    deduper.drain_merge(&mut changes);

    assert_eq!(changes.len(), 1);
    assert_eq!(changes[0], unrelated_change);

    let merged_changes: Vec<TrackPatchEvent> = deduper
        .into_inner()
        .into_iter()
        .filter_map(|t| match t {
            TrackChange::TrackPatch(patch) => Some(patch),
            _ => None,
        })
        .collect();

    assert_eq!(merged_changes.len(), 2);
    let track_1 = merged_changes.iter().find(|p| p.id == TrackId(1)).unwrap();
    assert_eq!(track_1.enabled_general, Some(false));
    let track_2 = merged_changes.iter().find(|p| p.id == TrackId(2)).unwrap();
    assert_eq!(track_2.enabled_general, Some(true));
}

#[test]
fn ice_restart_collapses_to_last_position() {
    let mut peer = test_peer();
    peer.context.pending_track_updates = vec![
        TrackChange::IceRestart,
        TrackChange::IceRestart,
        TrackChange::TrackPatch(TrackPatchEvent {
            id: TrackId(0),
            enabled_individual: None,
            enabled_general: None,
        }),
        TrackChange::IceRestart,
        TrackChange::TrackPatch(TrackPatchEvent {
            id: TrackId(0),
            enabled_individual: None,
            enabled_general: None,
        }),
    ];
    peer.dedup_pending_track_updates();
    let pending = peer.context.pending_track_updates;
    assert_eq!(pending.len(), 2);
    match &pending[0] {
        TrackChange::TrackPatch(p) => assert_eq!(p.id, TrackId(0)),
        other => panic!("expected the merged patch first, got {:?}", other),
    }
    assert!(matches!(pending[1], TrackChange::IceRestart));
}

#[test]
fn mids_are_required_for_every_track() {
    let mut peer = PeerStateMachine::Stable(test_peer());
    peer.schedule_change(TrackChange::AddSendTrack(media_track(0)));
    let _ = peer.commit_scheduled_changes();
    let stable = match peer {
        PeerStateMachine::Stable(p) => p,
        _ => panic!("peer should be stable"),
    };
    assert!(stable.get_mids().is_err());
    let mut wait_local = stable.start_as_offerer();
    assert!(wait_local.set_mids(&vec![]).is_err());
    assert!(wait_local.set_mids(&vec![(TrackId(0), "mid0".to_string())]).is_ok());
    let (stable, _) = wait_local.set_local_answer("sdp".to_string());
    let mids = stable.get_mids().unwrap();
    assert_eq!(mids.len(), 1);
    assert_eq!(mids[0].0, TrackId(0));
    assert_eq!(mids[0].1, "mid0".to_string());
}
