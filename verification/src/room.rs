//! The `Room`: the single serial owner of one room's peers and member
//! sessions. Every Client API command and every Control API mutation is
//! one call that runs to completion; events for clients come back as
//! (member, event) pairs for the transport to deliver.

use vstd::prelude::*;

use crate::api::{Command, Event, NegotiationRole};
use crate::endpoint::{EndpointSpec, WeakEndpoint, WebRtcPlayEndpoint, WebRtcPublishEndpoint};
use crate::errors::{PeerError, RoomError};
use crate::ice::{IceUser, TurnAuthService, UnreachablePolicy};
use crate::ids::{EndpointId, MemberId, PeerId, RoomId, TrackId};
use crate::member::{parse_participants, Member, RoomSpec};
use crate::members_manager::{ConnectOutcome, MembersManager, RpcConnection, SessionState};
use crate::peer::{
    adds_upto, assign_mids, dedup_ice, dedup_patches, fold_records, force_merged, force_outcome,
    has_mid, patch_changes, same_variant, update_matches, Context, PeerStateMachine, TrackChange,
};
use crate::track::{MediaTrack, Track, TrackPatchCommand, TrackPatchEvent, TrackUpdate};
use crate::peers::{has_peer, peer_idx, PeerRepository};

verus! {

/// One room: its peers and its member sessions.
pub struct Room {
    /// The room's ID.
    pub id: RoomId,
    /// The peers of the room.
    pub peers: PeerRepository,
    /// The members and their sessions.
    pub members: MembersManager,
}

/// Whether a room's observable state is unchanged: same ID, same members
/// and sessions, and the peer repository holds the same peers and counters.
pub open spec fn room_unchanged(pre: Room, post: Room) -> bool {
    &&& post.id == pre.id
    &&& post.members == pre.members
    &&& post.peers.room_id == pre.peers.room_id
    &&& post.peers.peers_count == pre.peers.peers_count
    &&& post.peers.tracks_count == pre.peers.tracks_count
    &&& post.peers.peers@ == pre.peers.peers@
}

/// The pending updates a `Stable` peer is left with when its queue is
/// committed onto the updates it already carries.
pub open spec fn committed_pending(c: Context) -> Seq<TrackChange> {
    if c.track_changes_queue@.len() == 0 {
        c.pending_track_updates@
    } else {
        dedup_patches(
            dedup_ice(
                c.pending_track_updates@ + fold_records(
                    c.senders@,
                    c.receivers@,
                    c.track_changes_queue@,
                ),
            ),
        )
    }
}

/// The pending updates a peer is left with when a negotiation it took part
/// in finishes: the updates its client just saw are dropped first, then
/// the queue commits.
pub open spec fn negotiated_pending(c: Context) -> Seq<TrackChange> {
    if c.track_changes_queue@.len() == 0 {
        Seq::empty()
    } else {
        dedup_patches(
            dedup_ice(fold_records(c.senders@, c.receivers@, c.track_changes_queue@)),
        )
    }
}

/// Whether the mids carry an entry for every track of the peer.
pub open spec fn mids_cover(c: Context, m: Seq<(TrackId, String)>) -> bool {
    &&& forall|i: int| 0 <= i < c.senders@.len() ==> has_mid(m, (#[trigger] c.senders@[i]).id)
    &&& forall|i: int| 0 <= i < c.receivers@.len() ==> has_mid(m, (#[trigger] c.receivers@[i]).id)
}

/// Whether `tracks` announces exactly the track-adding changes of
/// `pending`, in order, toward the partner member.
pub open spec fn tracks_match(
    tracks: Seq<Track>,
    pending: Seq<TrackChange>,
    partner: Seq<char>,
) -> bool {
    let adds = adds_upto(pending, pending.len() as int);
    &&& tracks.len() == adds.len()
    &&& forall|k: int| 0 <= k < tracks.len() ==> update_matches(
        TrackUpdate::Added(#[trigger] tracks[k]),
        adds[k],
        partner,
    )
}

/// Whether `updates` announces exactly the changes of `pending`, in order,
/// toward the partner member.
pub open spec fn updates_match(
    updates: Seq<TrackUpdate>,
    pending: Seq<TrackChange>,
    partner: Seq<char>,
) -> bool {
    &&& updates.len() == pending.len()
    &&& forall|k: int| 0 <= k < updates.len() ==> update_matches(
        #[trigger] updates[k],
        pending[k],
        partner,
    )
}

/// Everything `MakeSdpOffer` does, with each refusal tied to its condition
/// in the order they are checked: the offerer must exist and wait for its
/// local SDP, its partner must exist and be `Stable`, the mids must cover
/// every track of the offerer, and an unknown partner must carry a TURN
/// credential. On success the one event goes to the partner's member.
pub open spec fn sdp_offer_outcome(
    pre: Room,
    post: Room,
    from_peer_id: PeerId,
    sdp_offer: Seq<char>,
    mids: Seq<(TrackId, String)>,
    r: Result<Vec<(MemberId, Event)>, RoomError>,
) -> bool {
    let s = pre.peers.peers@;
    let i0 = peer_idx(s, from_peer_id);
    let pid = s[i0].ctx().partner_peer;
    let j0 = peer_idx(s, pid);
    &&& post.id == pre.id
    &&& post.members == pre.members
    &&& if i0 == -1 {
        &&& r matches Err(e) && e == RoomError::PeerNotFound(from_peer_id)
        &&& room_unchanged(pre, post)
    } else if j0 == -1 || j0 == i0 {
        &&& r matches Err(e) && e == RoomError::PeerNotFound(pid)
        &&& room_unchanged(pre, post)
    } else if !(s[i0] is WaitLocalSdp) {
        &&& r matches Err(RoomError::PeerError(PeerError::WrongState(p, exp, _))) && p
            == from_peer_id && exp@ == "WaitLocalSdp"@
        &&& room_unchanged(pre, post)
    } else if !(s[j0] is Stable) {
        &&& r matches Err(RoomError::PeerError(PeerError::WrongState(p, exp, _))) && p == pid
            && exp@ == "Stable"@
        &&& room_unchanged(pre, post)
    } else if !mids_cover(s[i0].ctx(), mids) {
        &&& r matches Err(RoomError::PeerError(e)) && e is MidsMismatch
        &&& room_unchanged(pre, post)
    } else if !s[j0].ctx().is_known_to_remote && s[j0].ctx().ice_user is None {
        &&& r matches Err(RoomError::NoTurnCredentials(m)) && m@ == s[j0].ctx().member_id@
        &&& room_unchanged(pre, post)
    } else {
        let cpend = committed_pending(s[j0].ctx());
        &&& r matches Ok(events) && {
            &&& events@.len() == 1
            &&& events@[0].0 == s[j0].ctx().member_id
            &&& if !s[j0].ctx().is_known_to_remote {
                events@[0].1 matches Event::PeerCreated {
                    peer_id,
                    sdp_offer: o,
                    tracks,
                    ice_servers,
                    force_relay,
                } && {
                    &&& peer_id == s[j0].ctx().id
                    &&& o matches Some(osdp) && osdp@ == sdp_offer
                    &&& tracks_match(tracks@, cpend, s[j0].ctx().partner_member@)
                    &&& s[j0].ctx().ice_user matches Some(u) && crate::ice::servers_match(
                        ice_servers@,
                        u,
                    )
                    &&& force_relay == s[j0].ctx().is_force_relayed
                }
            } else {
                events@[0].1 matches Event::TracksApplied {
                    peer_id,
                    updates,
                    negotiation_role,
                } && {
                    &&& peer_id == s[j0].ctx().id
                    &&& updates_match(updates@, cpend, s[j0].ctx().partner_member@)
                    &&& negotiation_role == Some(NegotiationRole::Answerer)
                }
            }
        }
        &&& post.peers.room_id == pre.peers.room_id
        &&& post.peers.peers_count == pre.peers.peers_count
        &&& post.peers.tracks_count == pre.peers.tracks_count
        &&& post.peers.peers@ == s.update(i0, post.peers.peers@[i0]).update(
            j0,
            post.peers.peers@[j0],
        )
        &&& ({
            let ni = post.peers.peers@[i0];
            &&& ni is WaitRemoteSdp
            &&& ni.ctx().id == from_peer_id
            &&& ni.ctx().partner_peer == pid
            &&& ni.ctx().member_id == s[i0].ctx().member_id
            &&& ni.ctx().partner_member == s[i0].ctx().partner_member
            &&& ni.ctx().sdp_offer matches Some(o) && o@ == sdp_offer
            &&& ni.ctx().senders@ == assign_mids(s[i0].ctx().senders@, mids)
            &&& ni.ctx().receivers@ == assign_mids(s[i0].ctx().receivers@, mids)
            &&& ni.ctx().pending_track_updates == s[i0].ctx().pending_track_updates
            &&& ni.ctx().track_changes_queue == s[i0].ctx().track_changes_queue
        })
        &&& ({
            let nj = post.peers.peers@[j0];
            &&& nj is WaitLocalSdp
            &&& nj.ctx().id == pid
            &&& nj.ctx().partner_peer == s[j0].ctx().partner_peer
            &&& nj.ctx().member_id == s[j0].ctx().member_id
            &&& nj.ctx().partner_member == s[j0].ctx().partner_member
            &&& nj.ctx().sdp_offer matches Some(o) && o@ == sdp_offer
            &&& nj.ctx().sdp_answer is None
            &&& nj.ctx().is_known_to_remote == s[j0].ctx().is_known_to_remote
            &&& nj.ctx().pending_track_updates@ == cpend
            &&& nj.ctx().track_changes_queue@.len() == 0
        })
    }
}

/// Everything `MakeSdpAnswer` does, with each refusal tied to its
/// condition: the answerer must exist and wait for its local SDP, its
/// partner must exist and wait for the remote one. On success both are
/// `Stable`, known to their clients, queues drained; the one event carries
/// the answer to the partner's member, for the partner peer.
pub open spec fn sdp_answer_outcome(
    pre: Room,
    post: Room,
    from_peer_id: PeerId,
    sdp_answer: Seq<char>,
    r: Result<Vec<(MemberId, Event)>, RoomError>,
) -> bool {
    let s = pre.peers.peers@;
    let i0 = peer_idx(s, from_peer_id);
    let pid = s[i0].ctx().partner_peer;
    let j0 = peer_idx(s, pid);
    &&& post.id == pre.id
    &&& post.members == pre.members
    &&& if i0 == -1 {
        &&& r matches Err(e) && e == RoomError::PeerNotFound(from_peer_id)
        &&& room_unchanged(pre, post)
    } else if j0 == -1 || j0 == i0 {
        &&& r matches Err(e) && e == RoomError::PeerNotFound(pid)
        &&& room_unchanged(pre, post)
    } else if !(s[i0] is WaitLocalSdp) {
        &&& r matches Err(RoomError::PeerError(PeerError::WrongState(p, exp, _))) && p
            == from_peer_id && exp@ == "WaitLocalSdp"@
        &&& room_unchanged(pre, post)
    } else if !(s[j0] is WaitRemoteSdp) {
        &&& r matches Err(RoomError::PeerError(PeerError::WrongState(p, exp, _))) && p == pid
            && exp@ == "WaitRemoteSdp"@
        &&& room_unchanged(pre, post)
    } else {
        &&& r matches Ok(events) && {
            &&& events@.len() == 1
            &&& events@[0].0 == s[j0].ctx().member_id
            &&& events@[0].1 matches Event::SdpAnswerMade { peer_id, sdp_answer: a } && peer_id
                == s[j0].ctx().id && a@ == sdp_answer
        }
        &&& post.peers.room_id == pre.peers.room_id
        &&& post.peers.peers_count == pre.peers.peers_count
        &&& post.peers.tracks_count == pre.peers.tracks_count
        &&& post.peers.peers@ == s.update(i0, post.peers.peers@[i0]).update(
            j0,
            post.peers.peers@[j0],
        )
        &&& ({
            let ni = post.peers.peers@[i0];
            &&& ni is Stable
            &&& ni.ctx().id == from_peer_id
            &&& ni.ctx().member_id == s[i0].ctx().member_id
            &&& ni.ctx().sdp_answer matches Some(a) && a@ == sdp_answer
            &&& ni.ctx().is_known_to_remote
            &&& ni.ctx().pending_track_updates@ == negotiated_pending(s[i0].ctx())
            &&& ni.ctx().track_changes_queue@.len() == 0
        })
        &&& ({
            let nj = post.peers.peers@[j0];
            &&& nj is Stable
            &&& nj.ctx().id == pid
            &&& nj.ctx().member_id == s[j0].ctx().member_id
            &&& nj.ctx().sdp_answer matches Some(a) && a@ == sdp_answer
            &&& nj.ctx().is_known_to_remote
            &&& nj.ctx().pending_track_updates@ == negotiated_pending(s[j0].ctx())
            &&& nj.ctx().track_changes_queue@.len() == 0
        })
    }
}

/// Everything `SetIceCandidate` does: an empty candidate is ignored
/// without an event; otherwise the peer must exist — `PeerNotFound` names
/// it, iff — and the one event carries the same candidate to the partner
/// member, for the partner peer. The room never changes.
pub open spec fn ice_candidate_outcome(
    pre: Room,
    post: Room,
    from_peer_id: PeerId,
    candidate: crate::api::IceCandidate,
    r: Result<Vec<(MemberId, Event)>, RoomError>,
) -> bool {
    let s = pre.peers.peers@;
    let i0 = peer_idx(s, from_peer_id);
    &&& post == pre
    &&& if candidate.candidate@.len() == 0 {
        r matches Ok(events) && events@.len() == 0
    } else if i0 == -1 {
        r matches Err(e) && e == RoomError::PeerNotFound(from_peer_id)
    } else {
        r matches Ok(events) && {
            &&& events@.len() == 1
            &&& events@[0].0 == s[i0].ctx().partner_member
            &&& events@[0].1 matches Event::IceCandidateDiscovered { peer_id, candidate: c }
                && peer_id == s[i0].ctx().partner_peer && c == candidate
        }
    }
}

/// Everything `UpdateTracks` does: the peer must exist — `PeerNotFound`
/// iff. The patches are queued on the peer as its own and on its partner
/// (when present) as partner patches; both force-apply, per
/// [`force_outcome`]; each non-empty merged batch is one `TracksApplied`
/// without a negotiation role, to that peer's own member, the commanded
/// peer's first.
pub open spec fn update_tracks_outcome(
    pre: Room,
    post: Room,
    peer_id: PeerId,
    patches: Seq<TrackPatchCommand>,
    r: Result<Vec<(MemberId, Event)>, RoomError>,
) -> bool {
    let s = pre.peers.peers@;
    let i0 = peer_idx(s, peer_id);
    let pid = s[i0].ctx().partner_peer;
    let j0 = peer_idx(s, pid);
    let partner_present = j0 >= 0 && j0 != i0;
    let c1 = s[i0].ctx();
    let q1 = c1.track_changes_queue@ + patch_changes(patches, false);
    let m1 = force_merged(c1.senders@, c1.receivers@, c1.pending_track_updates@, q1);
    let c2 = s[j0].ctx();
    let q2 = c2.track_changes_queue@ + patch_changes(patches, true);
    let m2 = force_merged(c2.senders@, c2.receivers@, c2.pending_track_updates@, q2);
    &&& post.id == pre.id
    &&& post.members == pre.members
    &&& if i0 == -1 {
        &&& r matches Err(e) && e == RoomError::PeerNotFound(peer_id)
        &&& room_unchanged(pre, post)
    } else {
        &&& post.peers.room_id == pre.peers.room_id
        &&& post.peers.peers_count == pre.peers.peers_count
        &&& post.peers.tracks_count == pre.peers.tracks_count
        &&& post.peers.peers@.len() == s.len()
        &&& ({
            let ni = post.peers.peers@[i0];
            &&& same_variant(ni, s[i0])
            &&& crate::peer::same_admin(ni.ctx(), c1)
            &&& force_outcome(c1.senders@, c1.receivers@, c1.pending_track_updates@, q1, ni.ctx())
        })
        &&& if partner_present {
            let nj = post.peers.peers@[j0];
            &&& post.peers.peers@ == s.update(i0, post.peers.peers@[i0]).update(
                j0,
                post.peers.peers@[j0],
            )
            &&& same_variant(nj, s[j0])
            &&& crate::peer::same_admin(nj.ctx(), c2)
            &&& force_outcome(c2.senders@, c2.receivers@, c2.pending_track_updates@, q2, nj.ctx())
        } else {
            post.peers.peers@ == s.update(i0, post.peers.peers@[i0])
        }
        &&& r matches Ok(events) && {
            let own = if m1.len() == 0 {
                0int
            } else {
                1int
            };
            let other = if partner_present && m2.len() > 0 {
                1int
            } else {
                0int
            };
            &&& events@.len() == own + other
            &&& (m1.len() > 0 ==> events@[0].0 == c1.member_id && (events@[0].1
                matches Event::TracksApplied { peer_id: p, updates, negotiation_role } && p
                == peer_id && updates@ == m1.map_values(|q: TrackPatchEvent| TrackUpdate::Updated(q))
                && negotiation_role is None))
            &&& (partner_present && m2.len() > 0 ==> events@[own].0 == c2.member_id && (events@[
                own
            ].1 matches Event::TracksApplied { peer_id: p, updates, negotiation_role } && p == pid
                && updates@ == m2.map_values(|q: TrackPatchEvent| TrackUpdate::Updated(q))
                && negotiation_role is None))
        }
    }
}

/// Everything committing-and-notifying one peer does: a missing peer is
/// `PeerNotFound`, iff; a peer that is not `Stable` or has nothing queued
/// is left alone with no events; an unknown peer without a TURN credential
/// is refused untouched. Otherwise the queue commits, the peer becomes the
/// offerer, and its member is told — `PeerCreated` when the client has
/// never seen the peer, else `TracksApplied` as the offerer.
pub open spec fn commit_notify_outcome(
    pre: Room,
    post: Room,
    peer_id: PeerId,
    r: Result<Vec<(MemberId, Event)>, RoomError>,
) -> bool {
    let s = pre.peers.peers@;
    let i0 = peer_idx(s, peer_id);
    let c = s[i0].ctx();
    let cpend = committed_pending(c);
    &&& post.id == pre.id
    &&& post.members == pre.members
    &&& if i0 == -1 {
        &&& r matches Err(e) && e == RoomError::PeerNotFound(peer_id)
        &&& room_unchanged(pre, post)
    } else if !(s[i0] is Stable) || c.track_changes_queue@.len() == 0 {
        &&& r matches Ok(events) && events@.len() == 0
        &&& room_unchanged(pre, post)
    } else if !c.is_known_to_remote && c.ice_user is None {
        &&& r matches Err(RoomError::NoTurnCredentials(m)) && m@ == c.member_id@
        &&& room_unchanged(pre, post)
    } else {
        &&& r matches Ok(events) && {
            &&& events@.len() == 1
            &&& events@[0].0 == c.member_id
            &&& if !c.is_known_to_remote {
                events@[0].1 matches Event::PeerCreated {
                    peer_id: p,
                    sdp_offer,
                    tracks,
                    ice_servers,
                    force_relay,
                } && {
                    &&& p == peer_id
                    &&& sdp_offer is None
                    &&& tracks_match(tracks@, cpend, c.partner_member@)
                    &&& c.ice_user matches Some(u) && crate::ice::servers_match(ice_servers@, u)
                    &&& force_relay == c.is_force_relayed
                }
            } else {
                events@[0].1 matches Event::TracksApplied {
                    peer_id: p,
                    updates,
                    negotiation_role,
                } && {
                    &&& p == peer_id
                    &&& updates_match(updates@, cpend, c.partner_member@)
                    &&& negotiation_role == Some(NegotiationRole::Offerer)
                }
            }
        }
        &&& post.peers.room_id == pre.peers.room_id
        &&& post.peers.peers_count == pre.peers.peers_count
        &&& post.peers.tracks_count == pre.peers.tracks_count
        &&& post.peers.peers@ == s.update(i0, post.peers.peers@[i0])
        &&& ({
            let ni = post.peers.peers@[i0];
            &&& ni is WaitLocalSdp
            &&& ni.ctx().id == peer_id
            &&& ni.ctx().member_id == c.member_id
            &&& ni.ctx().partner_peer == c.partner_peer
            &&& ni.ctx().partner_member == c.partner_member
            &&& ni.ctx().sdp_offer is None
            &&& ni.ctx().sdp_answer is None
            &&& ni.ctx().is_known_to_remote == c.is_known_to_remote
            &&& ni.ctx().pending_track_updates@ == cpend
            &&& ni.ctx().track_changes_queue@.len() == 0
        })
    }
}

/// Whether two member records name the same member: same ID, same
/// credentials.
pub open spec fn same_identity(a: Member, b: Member) -> bool {
    a.id == b.id && a.credentials == b.credentials
}

/// Whether the member holds a publisher with the given endpoint ID.
pub open spec fn has_publisher(m: Member, id: Seq<char>) -> bool {
    exists|i: int| 0 <= i < m.publishers@.len() && (#[trigger] m.publishers@[i]).id@ == id
}

/// Whether the member holds a player with the given endpoint ID.
pub open spec fn has_player(m: Member, id: Seq<char>) -> bool {
    exists|i: int| 0 <= i < m.receivers@.len() && (#[trigger] m.receivers@[i]).id@ == id
}

/// Whether the member already uses the endpoint ID, for a publisher or a
/// player.
pub open spec fn endpoint_id_taken(m: Member, id: Seq<char>) -> bool {
    ||| exists|i: int| 0 <= i < m.publishers@.len() && (#[trigger] m.publishers@[i]).id@ == id
    ||| exists|i: int| 0 <= i < m.receivers@.len() && (#[trigger] m.receivers@[i]).id@ == id
}

impl Room {
    /// The room is well formed: its session registry is.
    pub open spec fn wf(&self) -> bool {
        self.members.wf()
    }

    /// A room loaded from its spec: the member graph built, nobody
    /// connected, no peers yet. Fails exactly when the spec's endpoint
    /// graph does not load.
    pub fn new(room_spec: &RoomSpec, reconnect_timeout_ms: u64) -> (r: Result<Room, RoomError>)
        ensures
            (r is Ok) <==> crate::member::loads_ok(room_spec.members@),
            match r {
                Ok(room) => {
                    &&& room.wf()
                    &&& room.id@ == room_spec.id@
                    &&& room.peers.peers@.len() == 0
                    &&& room.members.members@.len() == room_spec.members@.len()
                },
                Err(e) => e is MembersLoadError,
            },
    {
        match parse_participants(room_spec) {
            Ok(members) => {
                let id = room_spec.id.clone_id();
                let members_manager = MembersManager::new(
                    room_spec.id.clone_id(),
                    members,
                    reconnect_timeout_ms,
                );
                Ok(
                    Room {
                        id,
                        peers: PeerRepository::new(room_spec.id.clone_id()),
                        members: members_manager,
                    },
                )
            },
            Err(e) => Err(RoomError::MembersLoadError(e)),
        }
    }

    /// Handles `MakeSdpOffer`, per [`sdp_offer_outcome`]: the offering peer
    /// must wait for its local SDP and its partner must be `Stable`; the
    /// mids must cover every track, and an unknown partner must carry a
    /// TURN credential. The offerer moves on to wait for the remote answer;
    /// the partner receives the offer — with everything its queue held
    /// committed onto it — and must produce the answer; its member is sent
    /// `PeerCreated` when it has never seen the peer, else `TracksApplied`
    /// riding the negotiation as the answerer.
    #[verifier::loop_isolation(false)]
    #[verifier::rlimit(100)]
    pub fn on_make_sdp_offer(
        &mut self,
        from_peer_id: PeerId,
        sdp_offer: String,
        mids: &Vec<(TrackId, String)>,
    ) -> (r: Result<Vec<(MemberId, Event)>, RoomError>)
        requires
            old(self).wf(),
        ensures
            final(self).wf(),
            sdp_offer_outcome(*old(self), *final(self), from_peer_id, sdp_offer@, mids@, r),
    {
        proof {
            crate::peers::lemma_peer_idx(self.peers.peers@, from_peer_id);
        }
        let i0 = match self.peers.find_peer(from_peer_id) {
            Some(i) => i,
            None => {
                return Err(RoomError::PeerNotFound(from_peer_id));
            },
        };
        let pid = self.peers.peers[i0].partner_peer_id();
        proof {
            crate::peers::lemma_peer_idx(self.peers.peers@, pid);
        }
        let j0 = match self.peers.find_peer(pid) {
            Some(j) => j,
            None => {
                return Err(RoomError::PeerNotFound(pid));
            },
        };
        if j0 == i0 {
            return Err(RoomError::PeerNotFound(pid));
        }
        let from_ok = match &self.peers.peers[i0] {
            PeerStateMachine::WaitLocalSdp(_) => true,
            _ => false,
        };
        if !from_ok {
            let e = PeerError::new_wrong_state(&self.peers.peers[i0], "WaitLocalSdp");
            return Err(RoomError::PeerError(e));
        }
        let to_ok = match &self.peers.peers[j0] {
            PeerStateMachine::Stable(_) => true,
            _ => false,
        };
        if !to_ok {
            let e = PeerError::new_wrong_state(&self.peers.peers[j0], "Stable");
            return Err(RoomError::PeerError(e));
        }
        let covered = covers_tracks(mids, self.peers.peers[i0].senders())
            && covers_tracks(mids, self.peers.peers[i0].receivers());
        if !covered {
            let missing = first_uncovered(
                mids,
                self.peers.peers[i0].senders(),
                self.peers.peers[i0].receivers(),
            );
            return Err(RoomError::PeerError(PeerError::MidsMismatch(missing)));
        }
        if !self.peers.peers[j0].is_known_to_remote() && !self.peers.peers[j0].has_ice_user() {
            let m = self.peers.peers[j0].member_id();
            return Err(RoomError::NoTurnCredentials(m));
        }
        let s0 = Ghost(self.peers.peers@);
        // the offerer: attach the mids, store the offer
        let pi = self.peers.peers.remove(i0);
        let mut from = match pi {
            PeerStateMachine::WaitLocalSdp(a) => a,
            other => {
                proof {
                    assert(false);
                }
                self.peers.peers.insert(i0, other);
                return Err(RoomError::PeerNotFound(from_peer_id));
            },
        };
        match from.set_mids(mids) {
            Ok(_) => {},
            Err(_) => {
                proof {
                    assert(false);
                }
                self.peers.peers.insert(i0, PeerStateMachine::WaitLocalSdp(from));
                return Err(RoomError::PeerNotFound(from_peer_id));
            },
        }
        let from2 = from.set_local_offer(sdp_offer.clone());
        self.peers.peers.insert(i0, PeerStateMachine::WaitRemoteSdp(from2));
        proof {
            assert(self.peers.peers@ =~= s0@.update(i0 as int, self.peers.peers@[i0 as int]));
        }
        let s1 = Ghost(self.peers.peers@);
        // the partner: commit what it has scheduled, hand it the offer
        let pj = self.peers.peers.remove(j0);
        let mut to = match pj {
            PeerStateMachine::Stable(b) => b,
            other => {
                proof {
                    assert(false);
                }
                self.peers.peers.insert(j0, other);
                return Err(RoomError::PeerNotFound(pid));
            },
        };
        // whatever the partner has scheduled rides this negotiation
        let _ = to.commit_scheduled_changes();
        let to2 = to.start_as_answerer().set_remote_offer(sdp_offer.clone());
        let to_member = to2.member_id();
        let event = if !to2.is_known_to_remote() {
            let ice_servers = match to2.ice_servers_list() {
                Some(v) => v,
                None => {
                    proof {
                        assert(false);
                    }
                    Vec::new()
                },
            };
            Event::PeerCreated {
                peer_id: to2.id(),
                sdp_offer: Some(sdp_offer),
                tracks: to2.new_tracks(),
                ice_servers,
                force_relay: to2.is_force_relayed(),
            }
        } else {
            Event::TracksApplied {
                peer_id: to2.id(),
                updates: to2.get_updates(),
                negotiation_role: Some(NegotiationRole::Answerer),
            }
        };
        self.peers.peers.insert(j0, PeerStateMachine::WaitLocalSdp(to2));
        proof {
            assert(self.peers.peers@ =~= s1@.update(j0 as int, self.peers.peers@[j0 as int]));
            assert(self.peers.peers@ =~= s0@.update(i0 as int, self.peers.peers@[i0 as int]).update(
                j0 as int,
                self.peers.peers@[j0 as int],
            ));
        }
        let mut events: Vec<(MemberId, Event)> = Vec::new();
        events.push((to_member, event));
        Ok(events)
    }

    /// Handles `MakeSdpAnswer`, per [`sdp_answer_outcome`]: the answering
    /// peer must wait for its local SDP and its partner for the remote one.
    /// Both become `Stable` and known to their clients, their queues drain,
    /// and the partner's member receives the answer.
    #[verifier::loop_isolation(false)]
    #[verifier::rlimit(100)]
    pub fn on_make_sdp_answer(&mut self, from_peer_id: PeerId, sdp_answer: String) -> (r: Result<
        Vec<(MemberId, Event)>,
        RoomError,
    >)
        requires
            old(self).wf(),
        ensures
            final(self).wf(),
            sdp_answer_outcome(*old(self), *final(self), from_peer_id, sdp_answer@, r),
    {
        proof {
            crate::peers::lemma_peer_idx(self.peers.peers@, from_peer_id);
        }
        let i0 = match self.peers.find_peer(from_peer_id) {
            Some(i) => i,
            None => {
                return Err(RoomError::PeerNotFound(from_peer_id));
            },
        };
        let pid = self.peers.peers[i0].partner_peer_id();
        proof {
            crate::peers::lemma_peer_idx(self.peers.peers@, pid);
        }
        let j0 = match self.peers.find_peer(pid) {
            Some(j) => j,
            None => {
                return Err(RoomError::PeerNotFound(pid));
            },
        };
        if j0 == i0 {
            return Err(RoomError::PeerNotFound(pid));
        }
        let from_ok = match &self.peers.peers[i0] {
            PeerStateMachine::WaitLocalSdp(_) => true,
            _ => false,
        };
        if !from_ok {
            let e = PeerError::new_wrong_state(&self.peers.peers[i0], "WaitLocalSdp");
            return Err(RoomError::PeerError(e));
        }
        let to_ok = match &self.peers.peers[j0] {
            PeerStateMachine::WaitRemoteSdp(_) => true,
            _ => false,
        };
        if !to_ok {
            let e = PeerError::new_wrong_state(&self.peers.peers[j0], "WaitRemoteSdp");
            return Err(RoomError::PeerError(e));
        }
        let s0 = Ghost(self.peers.peers@);
        let pi = self.peers.peers.remove(i0);
        let from = match pi {
            PeerStateMachine::WaitLocalSdp(a) => a,
            other => {
                proof {
                    assert(false);
                }
                self.peers.peers.insert(i0, other);
                return Err(RoomError::PeerNotFound(from_peer_id));
            },
        };
        let (from2, _note_from) = from.set_local_answer(sdp_answer.clone());
        self.peers.peers.insert(i0, PeerStateMachine::Stable(from2));
        proof {
            assert(self.peers.peers@ =~= s0@.update(i0 as int, self.peers.peers@[i0 as int]));
        }
        let s1 = Ghost(self.peers.peers@);
        let pj = self.peers.peers.remove(j0);
        let to = match pj {
            PeerStateMachine::WaitRemoteSdp(b) => b,
            other => {
                proof {
                    assert(false);
                }
                self.peers.peers.insert(j0, other);
                return Err(RoomError::PeerNotFound(pid));
            },
        };
        let (to2, _note_to) = to.set_remote_answer(sdp_answer.clone());
        let to_member = to2.member_id();
        let event = Event::SdpAnswerMade { peer_id: to2.id(), sdp_answer };
        self.peers.peers.insert(j0, PeerStateMachine::Stable(to2));
        proof {
            assert(self.peers.peers@ =~= s1@.update(j0 as int, self.peers.peers@[j0 as int]));
            assert(self.peers.peers@ =~= s0@.update(i0 as int, self.peers.peers@[i0 as int]).update(
                j0 as int,
                self.peers.peers@[j0 as int],
            ));
        }
        let mut events: Vec<(MemberId, Event)> = Vec::new();
        events.push((to_member, event));
        Ok(events)
    }

    /// Handles `SetIceCandidate`, per [`ice_candidate_outcome`]: an empty
    /// candidate is ignored; any other is forwarded to the partner member,
    /// for the partner peer; nothing else changes.
    pub fn on_set_ice_candidate(
        &mut self,
        from_peer_id: PeerId,
        candidate: crate::api::IceCandidate,
    ) -> (r: Result<Vec<(MemberId, Event)>, RoomError>)
        requires
            old(self).wf(),
        ensures
            final(self).wf(),
            ice_candidate_outcome(*old(self), *final(self), from_peer_id, candidate, r),
    {
        proof {
            crate::peers::lemma_peer_idx(self.peers.peers@, from_peer_id);
        }
        if candidate.candidate.unicode_len() == 0 {
            return Ok(Vec::new());
        }
        let (to_peer_id, to_member) = match self.peers.get_peer_by_id(from_peer_id) {
            Ok(p) => (p.partner_peer_id(), p.partner_member_id()),
            Err(e) => {
                return Err(e);
            },
        };
        let event = Event::IceCandidateDiscovered { peer_id: to_peer_id, candidate };
        let mut events: Vec<(MemberId, Event)> = Vec::new();
        events.push((to_member, event));
        Ok(events)
    }

    /// Handles `UpdateTracks`, per [`update_tracks_outcome`]: the patches
    /// are scheduled on the named peer as its own and on its partner as
    /// partner patches, then both peers force-apply what can be forced.
    /// Each non-empty merged batch goes to that peer's own member as
    /// `TracksApplied` without a negotiation role; changes that need a
    /// negotiation stay queued.
    #[verifier::loop_isolation(false)]
    #[verifier::rlimit(100)]
    pub fn on_update_tracks(
        &mut self,
        peer_id: PeerId,
        tracks_patches: &Vec<crate::track::TrackPatchCommand>,
    ) -> (r: Result<Vec<(MemberId, Event)>, RoomError>)
        requires
            old(self).wf(),
        ensures
            final(self).wf(),
            update_tracks_outcome(*old(self), *final(self), peer_id, tracks_patches@, r),
    {
        proof {
            crate::peers::lemma_peer_idx(self.peers.peers@, peer_id);
        }
        let i0 = match self.peers.find_peer(peer_id) {
            Some(i) => i,
            None => {
                return Err(RoomError::PeerNotFound(peer_id));
            },
        };
        let partner_id = self.peers.peers[i0].partner_peer_id();
        proof {
            crate::peers::lemma_peer_idx(self.peers.peers@, partner_id);
        }
        let j0 = self.peers.find_peer(partner_id);
        let s0 = Ghost(self.peers.peers@);
        let mut peer = self.peers.peers.remove(i0);
        let peer_member = peer.member_id();
        peer.patch_tracks(tracks_patches);
        let own_batch = peer.inner_force_commit_all();
        self.peers.peers.insert(i0, peer);
        proof {
            assert(self.peers.peers@ =~= s0@.update(i0 as int, self.peers.peers@[i0 as int]));
        }
        let mut events: Vec<(MemberId, Event)> = Vec::new();
        match own_batch {
            Some(updates) => {
                events.push(
                    (
                        peer_member,
                        Event::TracksApplied { peer_id, updates, negotiation_role: None },
                    ),
                );
            },
            None => {},
        }
        let s1 = Ghost(self.peers.peers@);
        match j0 {
            Some(j) => {
                if j != i0 {
                    let mut partner = self.peers.peers.remove(j);
                    let partner_member = partner.member_id();
                    partner.partner_patch_tracks(tracks_patches);
                    let partner_batch = partner.inner_force_commit_all();
                    self.peers.peers.insert(j, partner);
                    proof {
                        assert(self.peers.peers@ =~= s1@.update(
                            j as int,
                            self.peers.peers@[j as int],
                        ));
                        assert(self.peers.peers@ =~= s0@.update(
                            i0 as int,
                            self.peers.peers@[i0 as int],
                        ).update(j as int, self.peers.peers@[j as int]));
                    }
                    match partner_batch {
                        Some(updates) => {
                            events.push(
                                (
                                    partner_member,
                                    Event::TracksApplied {
                                        peer_id: partner_id,
                                        updates,
                                        negotiation_role: None,
                                    },
                                ),
                            );
                        },
                        None => {},
                    }
                }
            },
            None => {},
        }
        Ok(events)
    }

    /// Handles `AddPeerConnectionMetrics`: observed, never acted on.
    pub fn on_add_peer_connection_metrics(
        &mut self,
        _peer_id: PeerId,
        _metrics: crate::api::PeerMetrics,
    ) -> (r: Result<Vec<(MemberId, Event)>, RoomError>)
        ensures
            *final(self) == *old(self),
            r matches Ok(events) && events@.len() == 0,
    {
        Ok(Vec::new())
    }

    /// Dispatches one client command to its handler; the outcome is the
    /// named handler's, clause for clause.
    pub fn handle_command(&mut self, command: Command) -> (r: Result<
        Vec<(MemberId, Event)>,
        RoomError,
    >)
        requires
            old(self).wf(),
        ensures
            final(self).wf(),
            match command {
                Command::MakeSdpOffer { peer_id, sdp_offer, mids } => sdp_offer_outcome(
                    *old(self),
                    *final(self),
                    peer_id,
                    sdp_offer@,
                    mids@,
                    r,
                ),
                Command::MakeSdpAnswer { peer_id, sdp_answer } => sdp_answer_outcome(
                    *old(self),
                    *final(self),
                    peer_id,
                    sdp_answer@,
                    r,
                ),
                Command::SetIceCandidate { peer_id, candidate } => ice_candidate_outcome(
                    *old(self),
                    *final(self),
                    peer_id,
                    candidate,
                    r,
                ),
                Command::UpdateTracks { peer_id, tracks_patches } => update_tracks_outcome(
                    *old(self),
                    *final(self),
                    peer_id,
                    tracks_patches@,
                    r,
                ),
                Command::AddPeerConnectionMetrics { .. } => *final(self) == *old(self) && (r
                    matches Ok(events) && events@.len() == 0),
            },
    {
        match command {
            Command::MakeSdpOffer { peer_id, sdp_offer, mids } => {
                self.on_make_sdp_offer(peer_id, sdp_offer, &mids)
            },
            Command::MakeSdpAnswer { peer_id, sdp_answer } => {
                self.on_make_sdp_answer(peer_id, sdp_answer)
            },
            Command::SetIceCandidate { peer_id, candidate } => {
                self.on_set_ice_candidate(peer_id, candidate)
            },
            Command::UpdateTracks { peer_id, tracks_patches } => {
                self.on_update_tracks(peer_id, &tracks_patches)
            },
            Command::AddPeerConnectionMetrics { peer_id, metrics } => {
                self.on_add_peer_connection_metrics(peer_id, metrics)
            },
        }
    }

    /// Creates a member in the room; refuses an ID that already exists.
    pub fn create_member(&mut self, member_id: &MemberId, credentials: String) -> (r: Result<
        (),
        RoomError,
    >)
        requires
            old(self).wf(),
        ensures
            final(self).wf(),
            final(self).id == old(self).id,
            ({
                let mi = crate::member::member_idx(old(self).members.members@, member_id@);
                match r {
                    Ok(_) => {
                        &&& mi == -1
                        &&& final(self).members.members@.len() == old(
                            self,
                        ).members.members@.len() + 1
                        &&& final(self).members.members@.last().id@ == member_id@
                        &&& final(self).members.members@.last().credentials == credentials
                    },
                    Err(e) => mi >= 0 && *final(self) == *old(self) && e
                        == RoomError::MemberAlreadyExists(*member_id),
                }
            }),
    {
        match self.members.find_member(member_id) {
            Some(_) => Err(RoomError::MemberAlreadyExists(member_id.clone_id())),
            None => {
                let m = Member::new(member_id.clone_id(), credentials);
                self.members.members.push(m);
                self.members.sessions.push(
                    crate::members_manager::SessionState::Disconnected,
                );
                Ok(())
            },
        }
    }

    /// Creates an endpoint on a member; refuses a missing member and an
    /// endpoint ID the member already uses.
    pub fn create_endpoint(
        &mut self,
        member_id: &MemberId,
        endpoint_id: &EndpointId,
        spec: &EndpointSpec,
    ) -> (r: Result<(), RoomError>)
        requires
            old(self).wf(),
        ensures
            final(self).wf(),
            final(self).id == old(self).id,
            final(self).peers == old(self).peers,
            ({
                let ms = old(self).members.members@;
                let mi = crate::member::member_idx(ms, member_id@);
                match r {
                    Ok(_) => {
                        &&& mi >= 0
                        &&& !endpoint_id_taken(ms[mi], endpoint_id@)
                        &&& final(self).members.members@.len() == ms.len()
                        &&& final(self).members.members@ == ms.update(
                            mi,
                            final(self).members.members@[mi],
                        )
                        &&& ({
                            let m1 = final(self).members.members@[mi];
                            let m0 = ms[mi];
                            &&& m1 == (Member {
                                publishers: m1.publishers,
                                receivers: m1.receivers,
                                ..m0
                            })
                            &&& match spec {
                                EndpointSpec::WebRtcPublish(p) => {
                                    &&& m1.receivers == m0.receivers
                                    &&& m1.publishers@.len() == m0.publishers@.len() + 1
                                    &&& m1.publishers@.subrange(0, m0.publishers@.len() as int)
                                        == m0.publishers@
                                    &&& ({
                                        let e = m1.publishers@.last();
                                        &&& e.id@ == endpoint_id@
                                        &&& e.p2p == p.p2p
                                        &&& e.audio_settings == p.audio_settings
                                        &&& e.video_settings == p.video_settings
                                        &&& e.is_force_relayed == p.force_relay
                                        &&& e.peer_ids@.len() == 0
                                        &&& e.receivers@.len() == 0
                                    })
                                },
                                EndpointSpec::WebRtcPlay(p) => {
                                    &&& m1.publishers == m0.publishers
                                    &&& m1.receivers@.len() == m0.receivers@.len() + 1
                                    &&& m1.receivers@.subrange(0, m0.receivers@.len() as int)
                                        == m0.receivers@
                                    &&& ({
                                        let e = m1.receivers@.last();
                                        &&& e.id@ == endpoint_id@
                                        &&& e.src == p.src
                                        &&& e.is_force_relayed == p.force_relay
                                        &&& e.peer_id is None
                                    })
                                },
                            }
                        })
                    },
                    Err(e) => {
                        &&& *final(self) == *old(self)
                        &&& match e {
                            RoomError::MemberNotFound(m) => mi == -1 && m@ == member_id@,
                            RoomError::EndpointAlreadyExists(x) => mi >= 0 && endpoint_id_taken(
                                ms[mi],
                                endpoint_id@,
                            ) && x@ == endpoint_id@,
                            _ => false,
                        }
                    },
                }
            }),
    {
        let s0 = Ghost(self.members.members@);
        let mi = match self.members.find_member(member_id) {
            Some(i) => i,
            None => {
                return Err(RoomError::MemberNotFound(member_id.clone_id()));
            },
        };
        let taken = match self.members.members[mi].get_publisher_by_id(endpoint_id) {
            Some(_) => true,
            None => {
                match self.members.members[mi].get_receiver_by_id(endpoint_id) {
                    Some(_) => true,
                    None => false,
                }
            },
        };
        if taken {
            return Err(RoomError::EndpointAlreadyExists(endpoint_id.clone_id()));
        }
        let mut m = self.members.members.remove(mi);
        match spec {
            EndpointSpec::WebRtcPublish(p) => {
                m.insert_publisher(
                    WebRtcPublishEndpoint {
                        id: endpoint_id.clone_id(),
                        p2p: p.p2p,
                        audio_settings: p.audio_settings,
                        video_settings: p.video_settings,
                        is_force_relayed: p.force_relay,
                        peer_ids: Vec::new(),
                        receivers: Vec::new(),
                    },
                );
            },
            EndpointSpec::WebRtcPlay(p) => {
                m.insert_receiver(
                    WebRtcPlayEndpoint {
                        id: endpoint_id.clone_id(),
                        src: p.src.clone_uri(),
                        is_force_relayed: p.force_relay,
                        peer_id: None,
                    },
                );
            },
        }
        self.members.members.insert(mi, m);
        proof {
            assert(self.members.members@ =~= s0@.update(
                mi as int,
                self.members.members@[mi as int],
            ));
        }
        Ok(())
    }

    /// Drops every binding to the removed peers from every member's
    /// endpoints.
    #[verifier::loop_isolation(false)]
    fn forget_peers(&mut self, removed: &Vec<(MemberId, PeerId)>)
        requires
            old(self).wf(),
        ensures
            final(self).wf(),
            final(self).id == old(self).id,
            final(self).peers == old(self).peers,
            final(self).members.members@.len() == old(self).members.members@.len(),
            forall|k: int| 0 <= k < final(self).members.members@.len() ==> {
                let m1 = #[trigger] final(self).members.members@[k];
                let m0 = old(self).members.members@[k];
                &&& m1.id == m0.id
                &&& m1.credentials == m0.credentials
                &&& m1.ice_user == m0.ice_user
                &&& m1.publishers@.len() == m0.publishers@.len()
                &&& (forall|j: int| 0 <= j < m1.publishers@.len() ==> (
                #[trigger] m1.publishers@[j]).id == m0.publishers@[j].id)
                &&& m1.receivers@.len() == m0.receivers@.len()
                &&& (forall|j: int| 0 <= j < m1.receivers@.len() ==> (
                #[trigger] m1.receivers@[j]).id == m0.receivers@[j].id)
            },
    {
        let mut ids: Vec<PeerId> = Vec::new();
        let mut i: usize = 0;
        while i < removed.len()
            invariant
                0 <= i <= removed@.len(),
            decreases removed@.len() - i,
        {
            ids.push(removed[i].1);
            i = i + 1;
        }
        let mut k: usize = 0;
        while k < self.members.members.len()
            invariant
                self.wf(),
                self.id == old(self).id,
                self.peers == old(self).peers,
                self.members.members@.len() == old(self).members.members@.len(),
                0 <= k <= self.members.members@.len(),
                forall|j: int| 0 <= j < k ==> {
                    let m1 = #[trigger] self.members.members@[j];
                    let m0 = old(self).members.members@[j];
                    &&& m1.id == m0.id
                    &&& m1.credentials == m0.credentials
                    &&& m1.ice_user == m0.ice_user
                    &&& m1.publishers@.len() == m0.publishers@.len()
                    &&& (forall|j2: int| 0 <= j2 < m1.publishers@.len() ==> (
                    #[trigger] m1.publishers@[j2]).id == m0.publishers@[j2].id)
                    &&& m1.receivers@.len() == m0.receivers@.len()
                    &&& (forall|j2: int| 0 <= j2 < m1.receivers@.len() ==> (
                    #[trigger] m1.receivers@[j2]).id == m0.receivers@[j2].id)
                },
                forall|j: int| k <= j < self.members.members@.len() ==> (
                #[trigger] self.members.members@[j]) == old(self).members.members@[j],
            decreases self.members.members@.len() - k,
        {
            let ghost msv = self.members.members@;
            let mut m = self.members.members.remove(k);
            m.peers_removed(&ids);
            self.members.members.insert(k, m);
            proof {
                assert forall|j: int|
                    0 <= j < self.members.members@.len() && j != k as int
                        implies self.members.members@[j] == msv[j] by {}
            }
            k = k + 1;
        }
    }

    /// Deletes a member: its peers and their partners go away, with the
    /// `PeersRemoved` entries for the affected members, and so does the
    /// member itself. Every TURN credential the removal frees, held by a
    /// removed peer or by the member, comes back for the caller to release.
    #[verifier::loop_isolation(false)]
    #[verifier::rlimit(100)]
    #[verifier::spinoff_prover]
    pub fn delete_member(&mut self, member_id: &MemberId) -> (r: (
        Vec<(MemberId, Event)>,
        Vec<IceUser>,
    ))
        requires
            old(self).wf(),
        ensures
            final(self).wf(),
            final(self).id == old(self).id,
            forall|j: int|
                0 <= j < final(self).peers.peers@.len() ==> (#[trigger] final(self).peers.peers@[
                    j
                ]).ctx().member_id@ != member_id@,
            forall|j: int|
                0 <= j < final(self).members.members@.len() ==> (
                #[trigger] final(self).members.members@[j]).id@ != member_id@,
            r.0@.len() + final(self).peers.peers@.len() == old(self).peers.peers@.len(),
            forall|k: int| 0 <= k < r.0@.len() ==> ((#[trigger] r.0@[k]).1
                matches Event::PeersRemoved { peer_ids } && peer_ids@.len() == 1 && exists|
                oi: int,
            |
                0 <= oi < old(self).peers.peers@.len() && r.0@[k].0 == old(
                    self,
                ).peers.peers@[oi].ctx().member_id && peer_ids@[0] == old(
                    self,
                ).peers.peers@[oi].ctx().id),
            // the member's peers' credentials are all handed back
            forall|oi: int|
                0 <= oi < old(self).peers.peers@.len() && (#[trigger] old(self).peers.peers@[
                    oi
                ]).ctx().member_id@ == member_id@ && old(self).peers.peers@[oi].ctx().ice_user
                    is Some ==> r.1@.contains(old(self).peers.peers@[oi].ctx().ice_user->0),
            // and so is the member's own credential
            forall|j: int|
                0 <= j < old(self).members.members@.len() && (#[trigger] old(
                    self,
                ).members.members@[j]).id@ == member_id@ && old(self).members.members@[j].ice_user
                    is Some ==> r.1@.contains(old(self).members.members@[j].ice_user->0),
            // nothing new appears: every surviving peer stood before, and
            // every surviving member keeps an identifier that stood before
            forall|j: int|
                0 <= j < final(self).peers.peers@.len() ==> old(self).peers.peers@.contains(
                    #[trigger] final(self).peers.peers@[j],
                ),
            forall|k: int|
                0 <= k < final(self).members.members@.len() ==> exists|j: int|
                    0 <= j < old(self).members.members@.len() && (
                    #[trigger] final(self).members.members@[k]).id == old(self).members.members@[
                        j
                    ].id,
            // every other member survives, with its credentials
            forall|j: int|
                0 <= j < old(self).members.members@.len() && (#[trigger] old(
                    self,
                ).members.members@[j]).id@ != member_id@ ==> exists|k: int|
                    0 <= k < final(self).members.members@.len() && #[trigger] same_identity(
                        final(self).members.members@[k],
                        old(self).members.members@[j],
                    ),
    {
        let ghost p0 = self.peers.peers@;
        let (removed, mut ices) = self.peers.remove_peers_related_to_member(member_id);
        self.forget_peers(&removed);
        let events = peers_removed_events(removed);
        let ghost mid = self.members.members@;
        let ghost ices_a = ices@;
        let mut member_ices = self.members.remove_members_with_id(member_id);
        let ghost ices_b = member_ices@;
        ices.append(&mut member_ices);
        proof {
            assert forall|x: IceUser| ices_a.contains(x) || ices_b.contains(x) implies ices
                @.contains(x) by {
                if ices_a.contains(x) {
                    let w = choose|w: int| 0 <= w < ices_a.len() && ices_a[w] == x;
                    assert(ices@[w] == x);
                } else {
                    let w = choose|w: int| 0 <= w < ices_b.len() && ices_b[w] == x;
                    assert(ices@[ices_a.len() + w] == x);
                }
            }
            // the member's own credential is handed back
            assert forall|j: int|
                0 <= j < old(self).members.members@.len() && (#[trigger] old(
                    self,
                ).members.members@[j]).id@ == member_id@ && old(self).members.members@[j].ice_user
                    is Some implies ices@.contains(
                old(self).members.members@[j].ice_user->0,
            ) by {
                assert(mid[j].id == old(self).members.members@[j].id);
                assert(mid[j].ice_user == old(self).members.members@[j].ice_user);
                assert(ices_b.contains(mid[j].ice_user->0));
            }
            // every other member survives, with its credentials
            assert forall|j: int|
                0 <= j < old(self).members.members@.len() && (#[trigger] old(
                    self,
                ).members.members@[j]).id@ != member_id@ implies exists|k: int|
                0 <= k < self.members.members@.len() && #[trigger] same_identity(
                    self.members.members@[k],
                    old(self).members.members@[j],
                ) by {
                assert(mid[j].id == old(self).members.members@[j].id);
                assert(mid[j].credentials == old(self).members.members@[j].credentials);
                let k = choose|k: int|
                    0 <= k < self.members.members@.len() && self.members.members@[k] == mid[j];
                assert(same_identity(self.members.members@[k], old(self).members.members@[j]));
            }
            // every surviving member keeps an identifier that stood before
            assert forall|k: int|
                0 <= k < self.members.members@.len() implies exists|j: int|
                0 <= j < old(self).members.members@.len() && (#[trigger] self.members.members@[
                    k
                ]).id == old(self).members.members@[j].id by {
                assert(mid.contains(self.members.members@[k]));
                let j = choose|j: int| 0 <= j < mid.len() && mid[j] == self.members.members@[k];
                assert(mid[j].id == old(self).members.members@[j].id);
            }
            // every surviving peer stood before
            assert forall|j: int|
                0 <= j < self.peers.peers@.len() implies p0.contains(
                #[trigger] self.peers.peers@[j]) by {
                assert(p0.contains(self.peers.peers@[j]));
            }
        }
        (events, ices)
    }

    /// Deletes an endpoint of a member: the endpoint leaves the graph, and
    /// the peers bound to it go away, with their `PeersRemoved` entries and
    /// every TURN credential they held, for the caller to release.
    #[verifier::rlimit(100)]
    #[verifier::spinoff_prover]
    pub fn delete_endpoint(&mut self, member_id: &MemberId, endpoint_id: &EndpointId) -> (r: (
        Vec<(MemberId, Event)>,
        Vec<IceUser>,
    ))
        requires
            old(self).wf(),
        ensures
            final(self).wf(),
            final(self).id == old(self).id,
            final(self).members.members@.len() == old(self).members.members@.len(),
            forall|k: int| 0 <= k < final(self).members.members@.len() ==> (
            #[trigger] final(self).members.members@[k]).id == old(self).members.members@[k].id,
            // the named endpoint is gone from its owner: the publisher when
            // one carried the ID, else the player that did
            ({
                let ms0 = old(self).members.members@;
                let mi = crate::member::member_idx(ms0, member_id@);
                mi >= 0 ==> {
                    &&& (has_publisher(ms0[mi], endpoint_id@) ==> forall|k: int|
                        0 <= k < final(self).members.members@.len() && (
                        #[trigger] final(self).members.members@[k]).id@ == member_id@
                            ==> !has_publisher(final(self).members.members@[k], endpoint_id@))
                    &&& (!has_publisher(ms0[mi], endpoint_id@) && has_player(
                        ms0[mi],
                        endpoint_id@,
                    ) ==> forall|k: int|
                        0 <= k < final(self).members.members@.len() && (
                        #[trigger] final(self).members.members@[k]).id@ == member_id@
                            ==> !has_player(final(self).members.members@[k], endpoint_id@))
                }
            }),
            // one event per removed peer, to its owning member
            r.0@.len() + final(self).peers.peers@.len() == old(self).peers.peers@.len(),
            forall|k: int| 0 <= k < r.0@.len() ==> ((#[trigger] r.0@[k]).1
                matches Event::PeersRemoved { peer_ids } && peer_ids@.len() == 1 && exists|
                oi: int,
            |
                0 <= oi < old(self).peers.peers@.len() && r.0@[k].0 == old(
                    self,
                ).peers.peers@[oi].ctx().member_id && peer_ids@[0] == old(
                    self,
                ).peers.peers@[oi].ctx().id),
            // an unknown member changes nothing
            crate::member::member_idx(old(self).members.members@, member_id@) == -1
                ==> (*final(self) == *old(self) && r.0@.len() == 0 && r.1@.len() == 0),
            // no credential is dropped: each one a peer held is handed back
            // or its peer survives, and each one handed back was held
            crate::member::member_idx(old(self).members.members@, member_id@) >= 0 ==> forall|
                oi: int,
            |
                0 <= oi < old(self).peers.peers@.len() && (#[trigger] old(self).peers.peers@[
                    oi
                ]).ctx().ice_user is Some ==> r.1@.contains(
                    old(self).peers.peers@[oi].ctx().ice_user->0,
                ) || (exists|j: int|
                    0 <= j < final(self).peers.peers@.len() && final(self).peers.peers@[j] == old(
                        self,
                    ).peers.peers@[oi]),
            forall|k: int| 0 <= k < r.1@.len() ==> exists|oi: int|
                0 <= oi < old(self).peers.peers@.len() && old(self).peers.peers@[oi].ctx().ice_user
                    == Some(#[trigger] r.1@[k]),
            // every surviving peer stood before
            crate::member::member_idx(old(self).members.members@, member_id@) >= 0 ==> forall|
                j: int,
            |
                0 <= j < final(self).peers.peers@.len() ==> old(self).peers.peers@.contains(
                    #[trigger] final(self).peers.peers@[j],
                ),
    {
        proof {
            crate::member::lemma_member_idx(self.members.members@, member_id@);
        }
        let mi = match self.members.find_member(member_id) {
            Some(i) => i,
            None => {
                return (Vec::new(), Vec::new());
            },
        };
        let mut bound: Vec<PeerId> = Vec::new();
        match self.members.members[mi].get_publisher_by_id(endpoint_id) {
            Some(p) => {
                let mut k: usize = 0;
                while k < p.peer_ids.len()
                    invariant
                        0 <= k <= p.peer_ids@.len(),
                    decreases p.peer_ids@.len() - k,
                {
                    bound.push(p.peer_ids[k]);
                    k = k + 1;
                }
                crate::member::remove_publisher(&mut self.members.members, member_id, endpoint_id);
                proof {
                    assert forall|k: int|
                        0 <= k < self.members.members@.len() && (
                        #[trigger] self.members.members@[k]).id@ == member_id@
                            implies !has_publisher(self.members.members@[k], endpoint_id@) by {
                        crate::member::lemma_pubs_without_gone(
                            old(self).members.members@[k].publishers@,
                            endpoint_id@,
                            old(self).members.members@[k].publishers@.len() as int,
                        );
                    }
                }
            },
            None => {
                match self.members.members[mi].get_receiver_by_id(endpoint_id) {
                    Some(pl) => {
                        match pl.peer_id {
                            Some(pid) => bound.push(pid),
                            None => {},
                        }
                        crate::member::remove_receiver(
                            &mut self.members.members,
                            member_id,
                            endpoint_id,
                        );
                        proof {
                            assert forall|k: int|
                                0 <= k < self.members.members@.len() && (
                                #[trigger] self.members.members@[k]).id@ == member_id@
                                    implies !has_player(
                                    self.members.members@[k],
                                    endpoint_id@,
                                ) by {
                                crate::member::lemma_plays_without_id_gone(
                                    old(self).members.members@[k].receivers@,
                                    endpoint_id@,
                                    old(self).members.members@[k].receivers@.len() as int,
                                );
                            }
                        }
                    },
                    None => {},
                }
            },
        }
        let ghost mid_members = self.members.members@;
        let ghost pv0 = self.peers.peers@;
        let (removed, ices) = self.peers.remove_peers(member_id, &bound);
        self.forget_peers(&removed);
        proof {
            crate::peers::lemma_removed_ice_src(pv0, bound@, pv0.len() as int);
            crate::peers::lemma_removed_ice_complete(pv0, bound@, pv0.len() as int);
            crate::peers::lemma_peers_kept(pv0, bound@, pv0.len() as int);
            assert forall|oi: int|
                0 <= oi < pv0.len() && (#[trigger] pv0[oi]).ctx().ice_user is Some implies ices
                @.contains(pv0[oi].ctx().ice_user->0) || (exists|j: int|
                0 <= j < self.peers.peers@.len() && self.peers.peers@[j] == pv0[oi]) by {
                if !crate::peers::dragged(pv0[oi], bound@) {
                    assert(crate::peers::peers_kept(pv0, bound@, pv0.len() as int).contains(
                        pv0[oi],
                    ));
                }
            }
            assert forall|k: int| 0 <= k < ices@.len() implies exists|oi: int|
                0 <= oi < pv0.len() && pv0[oi].ctx().ice_user == Some(#[trigger] ices@[k]) by {
                let oi = choose|oi: int|
                    0 <= oi < pv0.len() && crate::peers::dragged(pv0[oi], bound@) && pv0[
                        oi
                    ].ctx().ice_user == Some(ices@[k]);
                assert(pv0[oi].ctx().ice_user == Some(ices@[k]));
            }
            assert forall|j: int| 0 <= j < self.peers.peers@.len() implies pv0.contains(
                #[trigger] self.peers.peers@[j],
            ) by {
                let oi = choose|oi: int|
                    0 <= oi < pv0.len() && pv0[oi] == self.peers.peers@[j] && !crate::peers::dragged(
                        pv0[oi],
                        bound@,
                    );
                assert(pv0[oi] == self.peers.peers@[j]);
            }
            assert forall|k: int|
                0 <= k < self.members.members@.len() && !has_publisher(
                    mid_members[k],
                    endpoint_id@,
                ) implies !has_publisher(#[trigger] self.members.members@[k], endpoint_id@) by {
                if has_publisher(self.members.members@[k], endpoint_id@) {
                    let w = choose|w: int|
                        0 <= w < self.members.members@[k].publishers@.len() && (
                        #[trigger] self.members.members@[k].publishers@[w]).id@ == endpoint_id@;
                    assert(mid_members[k].publishers@[w].id@ == endpoint_id@);
                }
            }
            assert forall|k: int|
                0 <= k < self.members.members@.len() && !has_player(
                    mid_members[k],
                    endpoint_id@,
                ) implies !has_player(#[trigger] self.members.members@[k], endpoint_id@) by {
                if has_player(self.members.members@[k], endpoint_id@) {
                    let w = choose|w: int|
                        0 <= w < self.members.members@[k].receivers@.len() && (
                        #[trigger] self.members.members@[k].receivers@[w]).id@ == endpoint_id@;
                    assert(mid_members[k].receivers@[w].id@ == endpoint_id@);
                }
            }
        }
        (peers_removed_events(removed), ices)
    }

    /// Registers a member's fresh connection. A first connection opens the
    /// session and has a TURN credential issued to the member, which it
    /// holds until the session ends; the credential a prior session left
    /// behind, if any, comes back for release. A reconnect hands the old
    /// connection back to be closed and issues nothing new. After a fresh
    /// session the caller evaluates the member's endpoint edges with
    /// [`Room::connect_members_peers`].
    pub fn connection_established<T: TurnAuthService>(
        &mut self,
        member_id: &MemberId,
        conn: RpcConnection,
        turn: &mut T,
    ) -> (r: Result<(ConnectOutcome, Option<IceUser>), RoomError>)
        requires
            old(self).wf(),
        ensures
            final(self).wf(),
            final(self).id == old(self).id,
            final(self).peers == old(self).peers,
            ({
                let mi = crate::member::member_idx(old(self).members.members@, member_id@);
                match r {
                    Ok(outcome) => {
                        &&& mi >= 0
                        &&& final(self).members.sessions@ == old(self).members.sessions@.update(
                            mi,
                            SessionState::Connected(conn),
                        )
                        &&& final(self).members.members@.len() == old(
                            self,
                        ).members.members@.len()
                        &&& match old(self).members.sessions@[mi] {
                            SessionState::Disconnected => {
                                &&& outcome.0 == ConnectOutcome::NewSession
                                &&& final(self).members.members@ == old(
                                    self,
                                ).members.members@.update(mi, final(self).members.members@[mi])
                                &&& final(self).members.members@[mi].ice_user is Some
                                &&& final(self).members.members@[mi] == (Member {
                                    ice_user: final(self).members.members@[mi].ice_user,
                                    ..old(self).members.members@[mi]
                                })
                                &&& outcome.1 == old(self).members.members@[mi].ice_user
                            },
                            SessionState::Connected(c) => outcome.0 == ConnectOutcome::ReplacedOld(
                                c,
                            ) && final(self).members.members == old(self).members.members
                                && outcome.1 is None,
                            SessionState::Grace(c) => outcome.0 == ConnectOutcome::ReplacedOld(c)
                                && final(self).members.members == old(self).members.members
                                && outcome.1 is None,
                        }
                    },
                    Err(e) => {
                        &&& final(self).members.members == old(self).members.members
                        &&& final(self).members.sessions == old(self).members.sessions
                        &&& match e {
                            RoomError::MemberNotFound(id) => id@ == member_id@ && mi == -1,
                            RoomError::TurnServiceErr(_) => mi >= 0 && old(
                                self,
                            ).members.sessions@[mi] is Disconnected,
                            _ => false,
                        }
                    },
                }
            }),
    {
        proof {
            crate::member::lemma_member_idx(self.members.members@, member_id@);
        }
        let mi = match self.members.find_member(member_id) {
            Some(i) => i,
            None => {
                return Err(RoomError::MemberNotFound(member_id.clone_id()));
            },
        };
        let fresh = match self.members.sessions[mi] {
            SessionState::Disconnected => true,
            _ => false,
        };
        if fresh {
            let user = match turn.create_member_user(
                &self.id,
                member_id,
                UnreachablePolicy::ReturnErr,
            ) {
                Ok(u) => u,
                Err(e) => {
                    return Err(RoomError::TurnServiceErr(e));
                },
            };
            let outcome = match self.members.connection_established(member_id, conn) {
                Ok(o) => o,
                Err(e) => {
                    return Err(e);
                },
            };
            let ghost msv = self.members.members@;
            let mut m = self.members.members.remove(mi);
            let replaced = m.replace_ice_user(user);
            self.members.members.insert(mi, m);
            proof {
                assert(self.members.members@ =~= msv.update(
                    mi as int,
                    self.members.members@[mi as int],
                ));
            }
            Ok((outcome, replaced))
        } else {
            let outcome = match self.members.connection_established(member_id, conn) {
                Ok(o) => o,
                Err(e) => {
                    return Err(e);
                },
            };
            Ok((outcome, None))
        }
    }

    /// Evaluates the endpoint edges of a member that just connected: every
    /// unbound play endpoint, its own or one naming it, whose two members
    /// both have a connection in good standing gets its peer pair created
    /// and committed. Emits the `PeerCreated` for each new offerer and
    /// marks it as the offerer.
    #[verifier::loop_isolation(false)]
    pub fn connect_members_peers<T: TurnAuthService>(&mut self, turn: &mut T) -> (r: Result<
        Vec<(MemberId, Event)>,
        RoomError,
    >)
        requires
            old(self).wf(),
        ensures
            final(self).wf(),
            final(self).id == old(self).id,
    {
        // First gather the connectable edges, then connect them: each edge
        // is (publisher member, publish endpoint, player member, play
        // endpoint).
        let mut edges: Vec<(MemberId, EndpointId, MemberId, EndpointId)> = Vec::new();
        let mut mi: usize = 0;
        while mi < self.members.members.len()
            invariant
                self.wf(),
            decreases self.members.members@.len() - mi,
        {
            let member_id = self.members.members[mi].id();
            let mut pj: usize = 0;
            while pj < self.members.members[mi].receivers.len()
                invariant
                    self.wf(),
                    mi < self.members.members@.len(),
                decreases self.members.members@[mi as int].receivers@.len() - pj,
            {
                let play_bound = self.members.members[mi].receivers[pj].peer_id.is_some();
                let src_member = self.members.members[mi].receivers[pj].src.member_id.clone_id();
                let play_id = self.members.members[mi].receivers[pj].id.clone_id();
                let src_endpoint = self.members.members[mi].receivers[pj].src.endpoint_id
                    .clone_id();
                if !play_bound && self.members.member_has_connection(&member_id)
                    && self.members.member_has_connection(&src_member) {
                    edges.push((src_member, src_endpoint, member_id.clone_id(), play_id));
                }
                pj = pj + 1;
            }
            mi = mi + 1;
        }
        let mut events: Vec<(MemberId, Event)> = Vec::new();
        let mut ei: usize = 0;
        while ei < edges.len()
            invariant
                self.wf(),
                self.id == old(self).id,
            decreases edges@.len() - ei,
        {
            let more = self.connect_edge(&edges[ei].0, &edges[ei].1, &edges[ei].2, &edges[ei].3, turn);
            match more {
                Ok(mut evs) => {
                    events.append(&mut evs);
                },
                Err(e) => {
                    return Err(e);
                },
            }
            ei = ei + 1;
        }
        Ok(events)
    }

    /// Connects one publisher-to-player edge: allocates or augments the
    /// peer pair, binds the endpoints, commits the scheduled tracks, and,
    /// when a negotiation is needed, makes that peer the offerer and tells
    /// its member with `PeerCreated` or `TracksApplied`.
    #[verifier::loop_isolation(false)]
    pub fn connect_edge<T: TurnAuthService>(
        &mut self,
        src_member: &MemberId,
        src_endpoint: &EndpointId,
        play_member: &MemberId,
        play_endpoint: &EndpointId,
        turn: &mut T,
    ) -> (r: Result<Vec<(MemberId, Event)>, RoomError>)
        requires
            old(self).wf(),
        ensures
            final(self).wf(),
            final(self).id == old(self).id,
            ({
                let ms = old(self).members.members@;
                let smi = crate::member::member_idx(ms, src_member@);
                let pmi = crate::member::member_idx(ms, play_member@);
                let full = old(self).peers.peers_count.count > u32::MAX - 2 || old(
                    self,
                ).peers.tracks_count.count > u32::MAX - 3;
                if full {
                    // the room has burned through its ID space: refuse
                    r is Err && *final(self) == *old(self)
                } else if smi == -1 {
                    (r matches Err(RoomError::MemberNotFound(m)) && m@ == src_member@)
                        && *final(self) == *old(self)
                } else if pmi == -1 {
                    (r matches Err(RoomError::MemberNotFound(m)) && m@ == play_member@)
                        && *final(self) == *old(self)
                } else if !has_publisher(ms[smi], src_endpoint@) {
                    (r matches Err(RoomError::EndpointNotFound(e)) && e@ == src_endpoint@)
                        && *final(self) == *old(self)
                } else if !has_player(ms[pmi], play_endpoint@) {
                    (r matches Err(RoomError::EndpointNotFound(e)) && e@ == play_endpoint@)
                        && *final(self) == *old(self)
                } else {
                    // from here the TURN service decides; on its failure the
                    // repository rolls the pair back (no peer appears), and
                    // any later refusal comes after the pair was installed
                    r is Err ==> final(self).peers.peers@.len() == old(self).peers.peers@.len()
                        || final(self).peers.peers@.len() == old(self).peers.peers@.len() + 2
                }
            }),
    {
        if self.peers.peers_count.count > u32::MAX - 2 || self.peers.tracks_count.count
            > u32::MAX - 3 {
            return Err(RoomError::PeerNotFound(PeerId(0)));
        }
        let smi = match self.members.find_member(src_member) {
            Some(i) => i,
            None => {
                return Err(RoomError::MemberNotFound(src_member.clone_id()));
            },
        };
        let pmi = match self.members.find_member(play_member) {
            Some(i) => i,
            None => {
                return Err(RoomError::MemberNotFound(play_member.clone_id()));
            },
        };
        let src = match self.members.members[smi].get_publisher_by_id(src_endpoint) {
            Some(p) => p,
            None => {
                return Err(RoomError::EndpointNotFound(src_endpoint.clone_id()));
            },
        };
        proof {
            let m = self.members.members@[smi as int];
            let w = choose|i: int|
                0 <= i < m.publishers@.len() && m.publishers@[i] == *src && src.id@
                    == src_endpoint@;
            assert(m.publishers@[w].id@ == src_endpoint@);
            assert(has_publisher(m, src_endpoint@));
        }
        let sink = match self.members.members[pmi].get_receiver_by_id(play_endpoint) {
            Some(p) => p,
            None => {
                return Err(RoomError::EndpointNotFound(play_endpoint.clone_id()));
            },
        };
        proof {
            let m = self.members.members@[pmi as int];
            let w = choose|i: int|
                0 <= i < m.receivers@.len() && m.receivers@[i] == *sink && sink.id@
                    == play_endpoint@;
            assert(m.receivers@[w].id@ == play_endpoint@);
            assert(has_player(m, play_endpoint@));
        }
        let created = match self.peers.connect_endpoints(
            src,
            src_member,
            sink,
            play_member,
            turn,
        ) {
            Ok(c) => c,
            Err(e) => {
                return Err(e);
            },
        };
        let mut events: Vec<(MemberId, Event)> = Vec::new();
        match created {
            Some((src_peer_id, sink_peer_id)) => {
                // bind the endpoints both ways
                let mut sm = self.members.members.remove(smi);
                bind_publisher(&mut sm, src_endpoint, src_peer_id, play_member, play_endpoint);
                self.members.members.insert(smi, sm);
                let mut pm = self.members.members.remove(pmi);
                bind_player(&mut pm, play_endpoint, sink_peer_id);
                self.members.members.insert(pmi, pm);
                match self.peers.take_peer(src_peer_id) {
                    Ok(mut p) => {
                        p.add_endpoint(
                            WeakEndpoint {
                                member_id: src_member.clone_id(),
                                endpoint_id: src_endpoint.clone_id(),
                                is_publish: true,
                            },
                        );
                        self.peers.add_peer(p);
                    },
                    Err(_) => {},
                }
                match self.peers.take_peer(sink_peer_id) {
                    Ok(mut p) => {
                        p.add_endpoint(
                            WeakEndpoint {
                                member_id: play_member.clone_id(),
                                endpoint_id: play_endpoint.clone_id(),
                                is_publish: false,
                            },
                        );
                        self.peers.add_peer(p);
                    },
                    Err(_) => {},
                }
                match self.commit_and_notify(src_peer_id) {
                    Ok(mut evs) => {
                        events.append(&mut evs);
                    },
                    Err(e) => {
                        return Err(e);
                    },
                }
            },
            None => {
                // the pair existed; commit the augmented tracks on the source side
                match self.peers.get_peer_by_members_ids(src_member, play_member) {
                    Some((pid, _)) => {
                        match self.commit_and_notify(pid) {
                            Ok(mut evs) => {
                                events.append(&mut evs);
                            },
                            Err(e) => {
                                return Err(e);
                            },
                        }
                    },
                    None => {},
                }
            },
        }
        Ok(events)
    }

    /// Commits a `Stable` peer's scheduled changes, per
    /// [`commit_notify_outcome`], and, when negotiation is needed, makes it
    /// the offerer: a peer its client has never seen is announced with
    /// `PeerCreated`, a known one with `TracksApplied` as the offerer. A
    /// missing peer is refused; a non-`Stable` or idle peer is left alone;
    /// an unknown peer without a TURN credential is refused untouched.
    #[verifier::loop_isolation(false)]
    #[verifier::rlimit(100)]
    pub fn commit_and_notify(&mut self, peer_id: PeerId) -> (r: Result<
        Vec<(MemberId, Event)>,
        RoomError,
    >)
        requires
            old(self).wf(),
        ensures
            final(self).wf(),
            commit_notify_outcome(*old(self), *final(self), peer_id, r),
    {
        proof {
            crate::peers::lemma_peer_idx(self.peers.peers@, peer_id);
        }
        let i0 = match self.peers.find_peer(peer_id) {
            Some(i) => i,
            None => {
                return Err(RoomError::PeerNotFound(peer_id));
            },
        };
        let stable_with_work = match &self.peers.peers[i0] {
            PeerStateMachine::Stable(p) => p.context.track_changes_queue.len() > 0,
            _ => false,
        };
        if !stable_with_work {
            return Ok(Vec::new());
        }
        if !self.peers.peers[i0].is_known_to_remote() && !self.peers.peers[i0].has_ice_user() {
            let m = self.peers.peers[i0].member_id();
            return Err(RoomError::NoTurnCredentials(m));
        }
        let s0 = Ghost(self.peers.peers@);
        let pi = self.peers.peers.remove(i0);
        let mut stable = match pi {
            PeerStateMachine::Stable(p) => p,
            other => {
                proof {
                    assert(false);
                }
                self.peers.peers.insert(i0, other);
                return Err(RoomError::PeerNotFound(peer_id));
            },
        };
        let _ = stable.commit_scheduled_changes();
        let member = stable.member_id();
        let event = if !stable.is_known_to_remote() {
            let ice_servers = match stable.ice_servers_list() {
                Some(v) => v,
                None => {
                    proof {
                        assert(false);
                    }
                    Vec::new()
                },
            };
            Event::PeerCreated {
                peer_id: stable.id(),
                sdp_offer: None,
                tracks: stable.new_tracks(),
                ice_servers,
                force_relay: stable.is_force_relayed(),
            }
        } else {
            Event::TracksApplied {
                peer_id: stable.id(),
                updates: stable.get_updates(),
                negotiation_role: Some(NegotiationRole::Offerer),
            }
        };
        let offerer = stable.start_as_offerer();
        self.peers.peers.insert(i0, PeerStateMachine::WaitLocalSdp(offerer));
        proof {
            assert(self.peers.peers@ =~= s0@.update(i0 as int, self.peers.peers@[i0 as int]));
        }
        let mut events: Vec<(MemberId, Event)> = Vec::new();
        events.push((member, event));
        Ok(events)
    }
}

impl PeerStateMachine {
    /// Force-applies whatever can be forced, whatever the state: on a
    /// `Stable` peer too, no negotiation is started. The queue keeps what
    /// cannot be forced, per [`force_outcome`]; the merged batch comes
    /// back when it is not empty.
    pub fn inner_force_commit_all(&mut self) -> (r: Option<Vec<crate::track::TrackUpdate>>)
        ensures
            same_variant(*final(self), *old(self)),
            crate::peer::same_admin(final(self).ctx(), old(self).ctx()),
            force_outcome(
                old(self).ctx().senders@,
                old(self).ctx().receivers@,
                old(self).ctx().pending_track_updates@,
                old(self).ctx().track_changes_queue@,
                final(self).ctx(),
            ),
            ({
                let merged = force_merged(
                    old(self).ctx().senders@,
                    old(self).ctx().receivers@,
                    old(self).ctx().pending_track_updates@,
                    old(self).ctx().track_changes_queue@,
                );
                if merged.len() == 0 {
                    r is None
                } else {
                    r matches Some(u) && u@ == merged.map_values(
                        |q: TrackPatchEvent| TrackUpdate::Updated(q),
                    )
                }
            }),
    {
        match self {
            PeerStateMachine::WaitLocalSdp(p) => {
                match p.inner_force_commit_scheduled_changes() {
                    Some((_, updates)) => Some(updates),
                    None => None,
                }
            },
            PeerStateMachine::WaitRemoteSdp(p) => {
                match p.inner_force_commit_scheduled_changes() {
                    Some((_, updates)) => Some(updates),
                    None => None,
                }
            },
            PeerStateMachine::Stable(p) => {
                match p.inner_force_commit_scheduled_changes() {
                    Some((_, updates)) => Some(updates),
                    None => None,
                }
            },
        }
    }
}


/// Whether the mids carry an entry for every one of the tracks.
#[verifier::loop_isolation(false)]
fn covers_tracks(mids: &Vec<(TrackId, String)>, tracks: &Vec<MediaTrack>) -> (r: bool)
    ensures
        r == (forall|i: int| 0 <= i < tracks@.len() ==> has_mid(
            mids@,
            (#[trigger] tracks@[i]).id,
        )),
{
    let mut i: usize = 0;
    while i < tracks.len()
        invariant
            0 <= i <= tracks@.len(),
            forall|j: int| 0 <= j < i ==> has_mid(mids@, (#[trigger] tracks@[j]).id),
        decreases tracks@.len() - i,
    {
        match crate::peer::find_mid(mids, tracks[i].id) {
            Some(_) => {},
            None => {
                proof {
                    assert(!has_mid(mids@, tracks@[i as int].id));
                }
                return false;
            },
        }
        i = i + 1;
    }
    true
}

/// The ID of the first track, senders before receivers, without a mid
/// entry; the first sender's ID when every track is covered.
#[verifier::loop_isolation(false)]
fn first_uncovered(
    mids: &Vec<(TrackId, String)>,
    senders: &Vec<MediaTrack>,
    receivers: &Vec<MediaTrack>,
) -> (r: TrackId)
{
    let mut i: usize = 0;
    while i < senders.len()
        decreases senders@.len() - i,
    {
        match crate::peer::find_mid(mids, senders[i].id) {
            Some(_) => {},
            None => {
                return senders[i].id;
            },
        }
        i = i + 1;
    }
    let mut k: usize = 0;
    while k < receivers.len()
        decreases receivers@.len() - k,
    {
        match crate::peer::find_mid(mids, receivers[k].id) {
            Some(_) => {},
            None => {
                return receivers[k].id;
            },
        }
        k = k + 1;
    }
    TrackId(0)
}

/// Turns the removed-peer entries into one `PeersRemoved` event per entry,
/// addressed to the owning member.
#[verifier::loop_isolation(false)]
pub fn peers_removed_events(removed: Vec<(MemberId, PeerId)>) -> (r: Vec<(MemberId, Event)>)
    ensures
        r@.len() == removed@.len(),
        forall|i: int| 0 <= i < r@.len() ==> (#[trigger] r@[i]).0 == removed@[i].0 && (r@[i].1
            matches Event::PeersRemoved { peer_ids } && peer_ids@ == seq![removed@[i].1]),
{
    let mut out: Vec<(MemberId, Event)> = Vec::new();
    let mut i: usize = 0;
    while i < removed.len()
        invariant
            0 <= i <= removed@.len(),
            out@.len() == i,
            forall|j: int| 0 <= j < i ==> (#[trigger] out@[j]).0 == removed@[j].0 && (out@[j].1
                matches Event::PeersRemoved { peer_ids } && peer_ids@ == seq![removed@[j].1]),
        decreases removed@.len() - i,
    {
        let mut ids: Vec<PeerId> = Vec::new();
        ids.push(removed[i].1);
        proof {
            assert(ids@ =~= seq![removed@[i as int].1]);
        }
        out.push((removed[i].0.clone_id(), Event::PeersRemoved { peer_ids: ids }));
        i = i + 1;
    }
    out
}

/// Binds a created peer to its publish endpoint and records the fed
/// player on it.
fn bind_publisher(
    m: &mut Member,
    endpoint_id: &EndpointId,
    peer_id: PeerId,
    play_member: &MemberId,
    play_endpoint: &EndpointId,
)
{
    let mut i: usize = 0;
    while i < m.publishers.len()
        decreases m.publishers@.len() - i,
    {
        if m.publishers[i].id.eq_id(endpoint_id) {
            let mut p = m.publishers.remove(i);
            p.add_peer_id(peer_id);
            p.add_receiver(play_member.clone_id(), play_endpoint.clone_id());
            m.publishers.insert(i, p);
            return ;
        }
        i = i + 1;
    }
}

/// Binds a created peer to its play endpoint.
fn bind_player(m: &mut Member, endpoint_id: &EndpointId, peer_id: PeerId) {
    let mut i: usize = 0;
    while i < m.receivers.len()
        decreases m.receivers@.len() - i,
    {
        if m.receivers[i].id.eq_id(endpoint_id) {
            let mut p = m.receivers.remove(i);
            p.set_peer_id(peer_id);
            m.receivers.insert(i, p);
            return ;
        }
        i = i + 1;
    }
}

} // verus!
