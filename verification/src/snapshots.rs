//! Client-side snapshots of a room: the mirror a client keeps of its peers
//! and tracks, updated by the events the room sends.

use vstd::prelude::*;

use crate::api::{Event, IceCandidate};
use crate::ice::IceServer;
use crate::ids::{PeerId, TrackId};
use crate::track::{Direction, MediaType, Track, TrackPatchCommand, TrackUpdate};

verus! {

/// The client-side mirror of one track.
#[derive(Clone, Debug, PartialEq, Eq)]
pub struct TrackSnapshot {
    /// The track's ID.
    pub id: TrackId,
    /// Whether the track is currently enabled.
    pub is_muted: bool,
    /// The direction from the client's point of view.
    pub direction: Direction,
    /// The media type.
    pub media_type: MediaType,
}

/// What a track snapshot knows how to do: be created and take patches.
pub trait TrackSnapshotAccessor: Sized {
    /// A fresh snapshot of a track.
    fn new_track(id: TrackId, is_muted: bool, direction: Direction, media_type: MediaType) -> Self;

    /// Applies a patch to the snapshot.
    fn update_track(&mut self, patch: &TrackPatchCommand);
}

impl TrackSnapshotAccessor for TrackSnapshot {
    fn new_track(
        id: TrackId,
        is_muted: bool,
        direction: Direction,
        media_type: MediaType,
    ) -> TrackSnapshot {
        TrackSnapshot { id, is_muted, direction, media_type }
    }

    fn update_track(&mut self, patch: &TrackPatchCommand) {
        match patch.enabled {
            Some(enabled) => {
                self.is_muted = !enabled;
            },
            None => {},
        }
    }
}

/// The client-side mirror of one peer.
#[derive(Clone, Debug, PartialEq, Eq)]
pub struct PeerSnapshot {
    /// The peer's ID.
    pub id: PeerId,
    /// The current offer, once one side produced it.
    pub sdp_offer: Option<String>,
    /// The current answer, once one side produced it.
    pub sdp_answer: Option<String>,
    /// The peer's tracks, keyed by their IDs.
    pub tracks: Vec<(TrackId, TrackSnapshot)>,
    /// TURN servers of the peer.
    pub ice_servers: Vec<IceServer>,
    /// Whether media must be relayed.
    pub is_force_relayed: bool,
    /// The candidates discovered so far.
    pub ice_candidates: Vec<IceCandidate>,
}

/// What a peer snapshot knows how to do: be created, take the answer,
/// collect candidates and take patches.
pub trait PeerSnapshotAccessor: Sized {
    /// A fresh snapshot of a peer.
    fn new_peer(
        id: PeerId,
        sdp_offer: Option<String>,
        ice_servers: Vec<IceServer>,
        is_force_relayed: bool,
        tracks: Vec<(TrackId, TrackSnapshot)>,
    ) -> Self;

    /// Stores the answer.
    fn set_sdp_answer(&mut self, sdp_answer: String);

    /// Records a discovered candidate.
    fn add_ice_candidate(&mut self, ice_candidate: IceCandidate);

    /// Applies patches to the snapshot's tracks.
    fn update_tracks(&mut self, patches: &Vec<TrackPatchCommand>);
}

impl PeerSnapshot {
    /// A fresh snapshot: no answer yet, no candidates.
    pub fn new(
        id: PeerId,
        sdp_offer: Option<String>,
        ice_servers: Vec<IceServer>,
        is_force_relayed: bool,
        tracks: Vec<(TrackId, TrackSnapshot)>,
    ) -> (r: Self)
        ensures
            r.id == id,
            r.sdp_offer == sdp_offer,
            r.ice_servers == ice_servers,
            r.is_force_relayed == is_force_relayed,
            r.tracks == tracks,
            r.sdp_answer is None,
            r.ice_candidates@.len() == 0,
    {
        PeerSnapshot {
            id,
            sdp_offer,
            sdp_answer: None,
            tracks,
            ice_servers,
            is_force_relayed,
            ice_candidates: Vec::new(),
        }
    }
}

impl PeerSnapshotAccessor for PeerSnapshot {
    fn new_peer(
        id: PeerId,
        sdp_offer: Option<String>,
        ice_servers: Vec<IceServer>,
        is_force_relayed: bool,
        tracks: Vec<(TrackId, TrackSnapshot)>,
    ) -> PeerSnapshot {
        PeerSnapshot::new(id, sdp_offer, ice_servers, is_force_relayed, tracks)
    }

    fn set_sdp_answer(&mut self, sdp_answer: String) {
        self.sdp_answer = Some(sdp_answer);
    }

    fn add_ice_candidate(&mut self, ice_candidate: IceCandidate) {
        self.ice_candidates.push(ice_candidate);
    }

    fn update_tracks(&mut self, patches: &Vec<TrackPatchCommand>) {
        let mut i: usize = 0;
        while i < patches.len()
            invariant
                0 <= i <= patches@.len(),
            decreases patches@.len() - i,
        {
            let mut k: usize = 0;
            while k < self.tracks.len()
                invariant
                    0 <= i < patches@.len(),
                    0 <= k <= self.tracks@.len(),
                decreases self.tracks@.len() - k,
            {
                if self.tracks[k].0.0 == patches[i].id.0 {
                    let mut entry = self.tracks.remove(k);
                    entry.1.update_track(&patches[i]);
                    self.tracks.insert(k, entry);
                }
                k = k + 1;
            }
            i = i + 1;
        }
    }
}

/// The client-side mirror of a whole room.
#[derive(Clone, Debug, PartialEq, Eq)]
pub struct RoomSnapshot {
    /// The peers, keyed by their IDs.
    pub peers: Vec<(PeerId, PeerSnapshot)>,
}

/// What a room snapshot knows how to do: hold peers and route updates to
/// them.
pub trait RoomSnapshotAccessor: Sized {
    /// Adds or replaces a peer.
    fn insert_peer(&mut self, peer_id: PeerId, peer: PeerSnapshot);

    /// Drops a peer.
    fn remove_peer(&mut self, peer_id: PeerId);
}

impl RoomSnapshot {
    /// An empty mirror: no peers yet.
    pub fn new() -> (r: Self)
        ensures
            r.peers@.len() == 0,
    {
        RoomSnapshot { peers: Vec::new() }
    }

    /// Applies one received event to the mirror, as the client does.
    pub fn apply_event(&mut self, event: &Event) {
        match event {
            Event::PeerCreated { peer_id, sdp_offer, tracks, ice_servers, force_relay } => {
                let mut snaps: Vec<(TrackId, TrackSnapshot)> = Vec::new();
                let mut i: usize = 0;
                while i < tracks.len()
                    invariant
                        0 <= i <= tracks@.len(),
                    decreases tracks@.len() - i,
                {
                    let t = &tracks[i];
                    snaps.push(
                        (
                            t.id,
                            TrackSnapshot {
                                id: t.id,
                                is_muted: false,
                                direction: t.direction.clone(),
                                media_type: t.media_type,
                            },
                        ),
                    );
                    i = i + 1;
                }
                let offer = match sdp_offer {
                    Some(o) => Some(o.clone()),
                    None => None,
                };
                let peer = PeerSnapshot::new(
                    *peer_id,
                    offer,
                    clone_servers(ice_servers),
                    *force_relay,
                    snaps,
                );
                self.insert_peer(*peer_id, peer);
            },
            Event::SdpAnswerMade { peer_id, sdp_answer } => {
                let mut k: usize = 0;
                while k < self.peers.len()
                    invariant
                        0 <= k <= self.peers@.len(),
                    decreases self.peers@.len() - k,
                {
                    if self.peers[k].0.0 == peer_id.0 {
                        let mut entry = self.peers.remove(k);
                        entry.1.set_sdp_answer(sdp_answer.clone());
                        self.peers.insert(k, entry);
                    }
                    k = k + 1;
                }
            },
            Event::IceCandidateDiscovered { peer_id, candidate } => {
                let mut k: usize = 0;
                while k < self.peers.len()
                    invariant
                        0 <= k <= self.peers@.len(),
                    decreases self.peers@.len() - k,
                {
                    if self.peers[k].0.0 == peer_id.0 {
                        let mut entry = self.peers.remove(k);
                        entry.1.add_ice_candidate(candidate.clone_candidate());
                        self.peers.insert(k, entry);
                    }
                    k = k + 1;
                }
            },
            Event::PeersRemoved { peer_ids } => {
                let mut i: usize = 0;
                while i < peer_ids.len()
                    invariant
                        0 <= i <= peer_ids@.len(),
                    decreases peer_ids@.len() - i,
                {
                    self.remove_peer(peer_ids[i]);
                    i = i + 1;
                }
            },
            Event::TracksApplied { peer_id, updates, negotiation_role: _ } => {
                let mut patches: Vec<TrackPatchCommand> = Vec::new();
                let mut i: usize = 0;
                while i < updates.len()
                    invariant
                        0 <= i <= updates@.len(),
                    decreases updates@.len() - i,
                {
                    match &updates[i] {
                        TrackUpdate::Updated(p) => {
                            patches.push(
                                TrackPatchCommand { id: p.id, enabled: p.enabled_general },
                            );
                        },
                        _ => {},
                    }
                    i = i + 1;
                }
                let mut k: usize = 0;
                while k < self.peers.len()
                    invariant
                        0 <= k <= self.peers@.len(),
                    decreases self.peers@.len() - k,
                {
                    if self.peers[k].0.0 == peer_id.0 {
                        let mut entry = self.peers.remove(k);
                        entry.1.update_tracks(&patches);
                        self.peers.insert(k, entry);
                    }
                    k = k + 1;
                }
            },
        }
    }
}

impl RoomSnapshotAccessor for RoomSnapshot {
    fn insert_peer(&mut self, peer_id: PeerId, peer: PeerSnapshot) {
        let mut k: usize = 0;
        while k < self.peers.len()
            invariant
                0 <= k <= self.peers@.len(),
            decreases self.peers@.len() - k,
        {
            if self.peers[k].0.0 == peer_id.0 {
                let _ = self.peers.remove(k);
                self.peers.insert(k, (peer_id, peer));
                return ;
            }
            k = k + 1;
        }
        self.peers.push((peer_id, peer));
    }

    fn remove_peer(&mut self, peer_id: PeerId) {
        let mut k: usize = 0;
        while k < self.peers.len()
            invariant
                0 <= k <= self.peers@.len(),
            decreases self.peers@.len() - k,
        {
            if self.peers[k].0.0 == peer_id.0 {
                let _ = self.peers.remove(k);
                return ;
            }
            k = k + 1;
        }
    }
}

/// Returns a copy of a servers list.
#[verifier::loop_isolation(false)]
fn clone_servers(v: &Vec<IceServer>) -> (r: Vec<IceServer>)
    ensures
        r@.len() == v@.len(),
{
    let mut out: Vec<IceServer> = Vec::new();
    let mut i: usize = 0;
    while i < v.len()
        invariant
            0 <= i <= v@.len(),
            out@.len() == i,
        decreases v@.len() - i,
    {
        let mut urls: Vec<String> = Vec::new();
        let mut j: usize = 0;
        while j < v[i].urls.len()
            invariant
                0 <= i < v@.len(),
            decreases v@[i as int].urls@.len() - j,
        {
            urls.push(v[i].urls[j].clone());
            j = j + 1;
        }
        out.push(
            IceServer {
                urls,
                username: v[i].username.clone(),
                credential: v[i].credential.clone(),
            },
        );
        i = i + 1;
    }
    out
}

} // verus!
