//! The `Peer` negotiation state machine.
//!
//! A peer is always one half of a pair. Changes that may require a new SDP
//! negotiation (adding tracks, patching them, an ICE restart) are never
//! applied on the spot: they are scheduled into `track_changes_queue` and
//! applied by `commit_scheduled_changes` only while the peer is `Stable`.
//! Applied changes land in `pending_track_updates`, deduplicated, and are
//! what clients see as `TrackUpdate`s. Track patches may also be applied
//! forcibly, without a negotiation cycle; other changes never are.

use vstd::prelude::*;

use crate::endpoint::{WeakEndpoint, WebRtcPublishEndpoint};
use crate::errors::PeerError;
use crate::ice::{IceServer, IceUser};
use crate::ids::{Counter, MemberId, PeerId, TrackId};
use crate::track::{
    merge_patch, AudioSettings, Direction, MediaSourceKind, MediaTrack, MediaType, PublishPolicy,
    Track, TrackPatchCommand, TrackPatchEvent, TrackUpdate, VideoSettings,
};

verus! {

/// The peer waits for its own SDP (an offer or an answer).
#[derive(Clone, Copy, Debug, PartialEq, Eq, Structural)]
pub struct WaitLocalSdp;

/// The peer has its own SDP and waits for the remote one.
#[derive(Clone, Copy, Debug, PartialEq, Eq, Structural)]
pub struct WaitRemoteSdp;

/// No negotiation is under way.
#[derive(Clone, Copy, Debug, PartialEq, Eq, Structural)]
pub struct Stable;

/// A scheduled change of a peer's track set, or the record of an applied
/// one.
#[derive(Clone, Debug, PartialEq, Eq)]
pub enum TrackChange {
    /// Add a track the peer sends.
    AddSendTrack(MediaTrack),
    /// Add a track the peer receives.
    AddRecvTrack(MediaTrack),
    /// A patch this peer's own member asked for.
    TrackPatch(TrackPatchEvent),
    /// A patch the partner member asked for.
    PartnerTrackPatch(TrackPatchEvent),
    /// The next offer must restart ICE.
    IceRestart,
}

impl TrackChange {
    /// Whether this change may be applied without a negotiation cycle:
    /// patches may, adding tracks and restarting ICE may not.
    pub fn can_force_apply(&self) -> (r: bool)
        ensures
            r == can_force_apply(*self),
    {
        match self {
            TrackChange::AddSendTrack(_) | TrackChange::AddRecvTrack(_)
            | TrackChange::IceRestart => false,
            TrackChange::TrackPatch(_) | TrackChange::PartnerTrackPatch(_) => true,
        }
    }
}

/// Whether a change may be applied without a negotiation cycle.
pub open spec fn can_force_apply(c: TrackChange) -> bool {
    c is TrackPatch || c is PartnerTrackPatch
}

/// The index of the first track with the given ID, or `-1` when none has
/// it.
pub open spec fn first_track_idx(s: Seq<MediaTrack>, id: TrackId) -> int
    decreases s.len(),
{
    if s.len() == 0 {
        -1
    } else if s[0].id == id {
        0
    } else {
        let rest = first_track_idx(s.subrange(1, s.len() as int), id);
        if rest == -1 {
            -1
        } else {
            rest + 1
        }
    }
}

/// Whether some track in the sequence has the given ID.
pub open spec fn has_track(s: Seq<MediaTrack>, id: TrackId) -> bool {
    first_track_idx(s, id) >= 0
}

/// What [`first_track_idx`] returns: the least index of a track with the
/// given ID, or `-1` when there is none.
pub proof fn lemma_first_track_idx(s: Seq<MediaTrack>, id: TrackId)
    ensures
        first_track_idx(s, id) >= -1,
        first_track_idx(s, id) == -1 ==> forall|j: int| 0 <= j < s.len() ==> s[j].id != id,
        first_track_idx(s, id) >= 0 ==> {
            &&& first_track_idx(s, id) < s.len()
            &&& s[first_track_idx(s, id)].id == id
            &&& forall|j: int| 0 <= j < first_track_idx(s, id) ==> s[j].id != id
        },
    decreases s.len(),
{
    if s.len() > 0 && s[0].id != id {
        let rest = s.subrange(1, s.len() as int);
        lemma_first_track_idx(rest, id);
        let fr = first_track_idx(rest, id);
        if fr >= 0 {
            assert(s[fr + 1] == rest[fr]);
            assert forall|j: int| 0 <= j < fr + 1 implies s[j].id != id by {
                if j >= 1 {
                    assert(rest[j - 1] == s[j]);
                }
            }
        } else {
            assert forall|j: int| 0 <= j < s.len() implies s[j].id != id by {
                if j >= 1 {
                    assert(0 <= j - 1 < rest.len());
                    assert(rest[j - 1].id != id);
                    assert(rest[j - 1] == s[j]);
                }
            }
        }
    }
}

/// All tracks with the given ID get their send flag set to `e`; the rest
/// stay as they are.
pub open spec fn upd_send_all(s: Seq<MediaTrack>, id: TrackId, e: bool) -> Seq<MediaTrack> {
    Seq::new(
        s.len(),
        |i: int|
            if s[i].id == id {
                MediaTrack { send_enabled: e, ..s[i] }
            } else {
                s[i]
            },
    )
}

/// All tracks with the given ID get their receive flag set to `e`; the
/// rest stay as they are.
pub open spec fn upd_recv_all(s: Seq<MediaTrack>, id: TrackId, e: bool) -> Seq<MediaTrack> {
    Seq::new(
        s.len(),
        |i: int|
            if s[i].id == id {
                MediaTrack { recv_enabled: e, ..s[i] }
            } else {
                s[i]
            },
    )
}

/// How one scheduled change transforms the peer's track sets
/// `(senders, receivers)`:
/// adds append their track; an own patch with an intention flips the named
/// side's exchange flag of the patched track; everything else leaves the
/// tracks alone.
pub open spec fn step_tracks(
    senders: Seq<MediaTrack>,
    receivers: Seq<MediaTrack>,
    c: TrackChange,
) -> (Seq<MediaTrack>, Seq<MediaTrack>) {
    match c {
        TrackChange::AddSendTrack(t) => (senders.push(t), receivers),
        TrackChange::AddRecvTrack(t) => (senders, receivers.push(t)),
        TrackChange::TrackPatch(p) => match p.enabled_individual {
            Some(e) => if has_track(senders, p.id) {
                (upd_send_all(senders, p.id, e), receivers)
            } else if has_track(receivers, p.id) {
                (senders, upd_recv_all(receivers, p.id, e))
            } else {
                (senders, receivers)
            },
            None => (senders, receivers),
        },
        TrackChange::PartnerTrackPatch(_) => (senders, receivers),
        TrackChange::IceRestart => (senders, receivers),
    }
}

/// The record an applied change leaves in `pending_track_updates`.
///
/// Adds and ICE restarts record themselves. An own patch with an intention
/// gains the resulting general exchange state of the patched track. A
/// partner patch turns into an own-patch record without the intention; its
/// general state is confirmed only when the intention already equals the
/// track's real exchange state.
pub open spec fn step_record(
    senders: Seq<MediaTrack>,
    receivers: Seq<MediaTrack>,
    c: TrackChange,
) -> TrackChange {
    match c {
        TrackChange::TrackPatch(p) => match p.enabled_individual {
            Some(e) => if has_track(senders, p.id) {
                TrackChange::TrackPatch(
                    TrackPatchEvent {
                        enabled_general: Some(
                            e && senders[first_track_idx(senders, p.id)].recv_enabled,
                        ),
                        ..p
                    },
                )
            } else if has_track(receivers, p.id) {
                TrackChange::TrackPatch(
                    TrackPatchEvent {
                        enabled_general: Some(
                            receivers[first_track_idx(receivers, p.id)].send_enabled && e,
                        ),
                        ..p
                    },
                )
            } else {
                c
            },
            None => c,
        },
        TrackChange::PartnerTrackPatch(p) => match p.enabled_individual {
            Some(e) => TrackChange::TrackPatch(
                TrackPatchEvent {
                    id: p.id,
                    enabled_individual: None,
                    enabled_general: partner_general(senders, receivers, p, e),
                },
            ),
            None => TrackChange::TrackPatch(p),
        },
        _ => c,
    }
}

/// The general state a partner patch confirms: `Some(e)` when the named
/// track exists (looked up among the senders first) and its real exchange
/// state already equals the partner's intention `e`; otherwise the patch's
/// own general field, unchanged.
pub open spec fn partner_general(
    senders: Seq<MediaTrack>,
    receivers: Seq<MediaTrack>,
    p: TrackPatchEvent,
    e: bool,
) -> Option<bool> {
    if has_track(senders, p.id) {
        let t = senders[first_track_idx(senders, p.id)];
        if (t.send_enabled && t.recv_enabled) == e {
            Some(e)
        } else {
            p.enabled_general
        }
    } else if has_track(receivers, p.id) {
        let t = receivers[first_track_idx(receivers, p.id)];
        if (t.send_enabled && t.recv_enabled) == e {
            Some(e)
        } else {
            p.enabled_general
        }
    } else {
        p.enabled_general
    }
}

/// The track sets after a whole sequence of changes, applied in order.
pub open spec fn fold_tracks(
    senders: Seq<MediaTrack>,
    receivers: Seq<MediaTrack>,
    cs: Seq<TrackChange>,
) -> (Seq<MediaTrack>, Seq<MediaTrack>)
    decreases cs.len(),
{
    if cs.len() == 0 {
        (senders, receivers)
    } else {
        let prev = fold_tracks(senders, receivers, cs.drop_last());
        step_tracks(prev.0, prev.1, cs.last())
    }
}

/// The records a whole sequence of changes leaves, applied in order.
pub open spec fn fold_records(
    senders: Seq<MediaTrack>,
    receivers: Seq<MediaTrack>,
    cs: Seq<TrackChange>,
) -> Seq<TrackChange>
    decreases cs.len(),
{
    if cs.len() == 0 {
        Seq::empty()
    } else {
        let prev = fold_tracks(senders, receivers, cs.drop_last());
        fold_records(senders, receivers, cs.drop_last()).push(
            step_record(prev.0, prev.1, cs.last()),
        )
    }
}

/// Everything a peer knows, shared by all its states.
#[derive(Clone, Debug, PartialEq, Eq)]
pub struct Context {
    /// This peer's ID.
    pub id: PeerId,
    /// The member owning this peer.
    pub member_id: MemberId,
    /// The paired peer on the partner member.
    pub partner_peer: PeerId,
    /// The member owning the paired peer.
    pub partner_member: MemberId,
    /// The TURN credential issued for this peer.
    pub ice_user: Option<IceUser>,
    /// The current SDP offer, once one side produced it.
    pub sdp_offer: Option<String>,
    /// The current SDP answer, once one side produced it.
    pub sdp_answer: Option<String>,
    /// Tracks this peer receives.
    pub receivers: Vec<MediaTrack>,
    /// Tracks this peer sends.
    pub senders: Vec<MediaTrack>,
    /// Whether all media of this peer must be relayed through TURN.
    pub is_force_relayed: bool,
    /// The endpoints this peer was created for.
    pub endpoints: Vec<WeakEndpoint>,
    /// Whether the client has been told about this peer.
    pub is_known_to_remote: bool,
    /// Applied changes the client has not seen yet.
    pub pending_track_updates: Vec<TrackChange>,
    /// Scheduled changes waiting for the peer to be `Stable`.
    pub track_changes_queue: Vec<TrackChange>,
}

/// The fields of a context that no track change ever touches.
pub open spec fn same_admin(a: Context, b: Context) -> bool {
    &&& a.id == b.id
    &&& a.member_id == b.member_id
    &&& a.partner_peer == b.partner_peer
    &&& a.partner_member == b.partner_member
    &&& a.ice_user == b.ice_user
    &&& a.sdp_offer == b.sdp_offer
    &&& a.sdp_answer == b.sdp_answer
    &&& a.is_force_relayed == b.is_force_relayed
    &&& a.endpoints == b.endpoints
    &&& a.is_known_to_remote == b.is_known_to_remote
}

/// One peer of a pair, with its negotiation state as a type tag.
#[derive(Clone, Debug, PartialEq, Eq)]
pub struct Peer<S> {
    /// The state shared by all negotiation states.
    pub context: Context,
    /// The negotiation state tag.
    pub state: S,
}

/// A peer in whichever negotiation state it currently has.
#[derive(Clone, Debug, PartialEq, Eq)]
pub enum PeerStateMachine {
    /// The peer waits for its own SDP.
    WaitLocalSdp(Peer<WaitLocalSdp>),
    /// The peer waits for the remote SDP.
    WaitRemoteSdp(Peer<WaitRemoteSdp>),
    /// No negotiation is under way.
    Stable(Peer<Stable>),
}

impl PeerStateMachine {
    /// The context, whatever the state.
    pub open spec fn ctx(self) -> Context {
        match self {
            PeerStateMachine::WaitLocalSdp(p) => p.context,
            PeerStateMachine::WaitRemoteSdp(p) => p.context,
            PeerStateMachine::Stable(p) => p.context,
        }
    }

    /// The name of the current state.
    pub fn state_name(&self) -> (r: &'static str)
        ensures
            r == (match self {
                PeerStateMachine::WaitLocalSdp(_) => "WaitLocalSdp",
                PeerStateMachine::WaitRemoteSdp(_) => "WaitRemoteSdp",
                PeerStateMachine::Stable(_) => "Stable",
            }),
    {
        match self {
            PeerStateMachine::WaitLocalSdp(_) => "WaitLocalSdp",
            PeerStateMachine::WaitRemoteSdp(_) => "WaitRemoteSdp",
            PeerStateMachine::Stable(_) => "Stable",
        }
    }

    /// Whether the peer is `Stable`.
    pub fn is_stable(&self) -> (r: bool)
        ensures
            r == (self is Stable),
    {
        match self {
            PeerStateMachine::Stable(_) => true,
            _ => false,
        }
    }

    /// This peer's ID.
    pub fn id(&self) -> (r: PeerId)
        ensures
            r == self.ctx().id,
    {
        match self {
            PeerStateMachine::WaitLocalSdp(p) => p.context.id,
            PeerStateMachine::WaitRemoteSdp(p) => p.context.id,
            PeerStateMachine::Stable(p) => p.context.id,
        }
    }

    /// The member owning this peer.
    pub fn member_id(&self) -> (r: MemberId)
        ensures
            r == self.ctx().member_id,
    {
        match self {
            PeerStateMachine::WaitLocalSdp(p) => p.context.member_id.clone_id(),
            PeerStateMachine::WaitRemoteSdp(p) => p.context.member_id.clone_id(),
            PeerStateMachine::Stable(p) => p.context.member_id.clone_id(),
        }
    }

    /// The paired peer's ID.
    pub fn partner_peer_id(&self) -> (r: PeerId)
        ensures
            r == self.ctx().partner_peer,
    {
        match self {
            PeerStateMachine::WaitLocalSdp(p) => p.context.partner_peer,
            PeerStateMachine::WaitRemoteSdp(p) => p.context.partner_peer,
            PeerStateMachine::Stable(p) => p.context.partner_peer,
        }
    }

    /// The member owning the paired peer.
    pub fn partner_member_id(&self) -> (r: MemberId)
        ensures
            r == self.ctx().partner_member,
    {
        match self {
            PeerStateMachine::WaitLocalSdp(p) => p.context.partner_member.clone_id(),
            PeerStateMachine::WaitRemoteSdp(p) => p.context.partner_member.clone_id(),
            PeerStateMachine::Stable(p) => p.context.partner_member.clone_id(),
        }
    }

    /// Whether all media of this peer must be relayed through TURN.
    pub fn is_force_relayed(&self) -> (r: bool)
        ensures
            r == self.ctx().is_force_relayed,
    {
        match self {
            PeerStateMachine::WaitLocalSdp(p) => p.context.is_force_relayed,
            PeerStateMachine::WaitRemoteSdp(p) => p.context.is_force_relayed,
            PeerStateMachine::Stable(p) => p.context.is_force_relayed,
        }
    }

    /// Whether the client has been told about this peer.
    pub fn is_known_to_remote(&self) -> (r: bool)
        ensures
            r == self.ctx().is_known_to_remote,
    {
        match self {
            PeerStateMachine::WaitLocalSdp(p) => p.context.is_known_to_remote,
            PeerStateMachine::WaitRemoteSdp(p) => p.context.is_known_to_remote,
            PeerStateMachine::Stable(p) => p.context.is_known_to_remote,
        }
    }
}

/// Returns the index of the first track with the given ID, if any has it.
#[verifier::loop_isolation(false)]
fn find_track(v: &Vec<MediaTrack>, id: TrackId) -> (r: Option<usize>)
    ensures
        match r {
            Some(i) => has_track(v@, id) && i as int == first_track_idx(v@, id),
            None => !has_track(v@, id),
        },
{
    proof {
        lemma_first_track_idx(v@, id);
    }
    let mut i: usize = 0;
    while i < v.len()
        invariant
            0 <= i <= v@.len(),
            forall|j: int| 0 <= j < i ==> v@[j].id != id,
        decreases v@.len() - i,
    {
        if v[i].id == id {
            return Some(i);
        }
        i = i + 1;
    }
    None
}

/// Sets the send flag of every track with the given ID; returns the
/// resulting exchange state of the first such track, if any has the ID.
#[verifier::loop_isolation(false)]
fn set_send_state(v: &mut Vec<MediaTrack>, id: TrackId, e: bool) -> (g: Option<bool>)
    ensures
        final(v)@ == upd_send_all(old(v)@, id, e),
        has_track(old(v)@, id) ==> g == Some(
            e && old(v)@[first_track_idx(old(v)@, id)].recv_enabled,
        ),
        !has_track(old(v)@, id) ==> g is None,
{
    proof {
        lemma_first_track_idx(old(v)@, id);
    }
    let mut g: Option<bool> = None;
    let mut i: usize = 0;
    while i < v.len()
        invariant
            0 <= i <= v@.len(),
            v@.len() == old(v)@.len(),
            forall|j: int| 0 <= j < i ==> v@[j] == upd_send_all(old(v)@, id, e)[j],
            forall|j: int| i <= j < v@.len() ==> v@[j] == old(v)@[j],
            ({
                let fi = first_track_idx(old(v)@, id);
                if 0 <= fi < i {
                    g == Some(e && old(v)@[fi].recv_enabled)
                } else {
                    g is None
                }
            }),
        decreases v@.len() - i,
    {
        if v[i].id == id {
            if g.is_none() {
                g = Some(e && v[i].recv_enabled);
            }
            let mut t = v[i].clone_track();
            t.set_send_media_exchange_state(e);
            v.set(i, t);
        }
        i = i + 1;
    }
    proof {
        assert(v@ =~= upd_send_all(old(v)@, id, e));
    }
    g
}

/// Sets the receive flag of every track with the given ID; returns the
/// resulting exchange state of the first such track, if any has the ID.
#[verifier::loop_isolation(false)]
fn set_recv_state(v: &mut Vec<MediaTrack>, id: TrackId, e: bool) -> (g: Option<bool>)
    ensures
        final(v)@ == upd_recv_all(old(v)@, id, e),
        has_track(old(v)@, id) ==> g == Some(
            old(v)@[first_track_idx(old(v)@, id)].send_enabled && e,
        ),
        !has_track(old(v)@, id) ==> g is None,
{
    proof {
        lemma_first_track_idx(old(v)@, id);
    }
    let mut g: Option<bool> = None;
    let mut i: usize = 0;
    while i < v.len()
        invariant
            0 <= i <= v@.len(),
            v@.len() == old(v)@.len(),
            forall|j: int| 0 <= j < i ==> v@[j] == upd_recv_all(old(v)@, id, e)[j],
            forall|j: int| i <= j < v@.len() ==> v@[j] == old(v)@[j],
            ({
                let fi = first_track_idx(old(v)@, id);
                if 0 <= fi < i {
                    g == Some(old(v)@[fi].send_enabled && e)
                } else {
                    g is None
                }
            }),
        decreases v@.len() - i,
    {
        if v[i].id == id {
            if g.is_none() {
                g = Some(v[i].send_enabled && e);
            }
            let mut t = v[i].clone_track();
            t.set_recv_media_exchange_state(e);
            v.set(i, t);
        }
        i = i + 1;
    }
    proof {
        assert(v@ =~= upd_recv_all(old(v)@, id, e));
    }
    g
}

impl<S> Peer<S> {
    /// Applies one scheduled change to the track sets and returns the
    /// record it leaves for the client, per [`step_tracks`] and
    /// [`step_record`].
    fn apply_change(&mut self, change: TrackChange) -> (r: TrackChange)
        ensures
            same_admin(final(self).context, old(self).context),
            final(self).context.pending_track_updates == old(self).context.pending_track_updates,
            final(self).context.track_changes_queue == old(self).context.track_changes_queue,
            final(self).state == old(self).state,
            ({
                let st = step_tracks(
                    old(self).context.senders@,
                    old(self).context.receivers@,
                    change,
                );
                final(self).context.senders@ == st.0 && final(self).context.receivers@ == st.1
            }),
            r == step_record(old(self).context.senders@, old(self).context.receivers@, change),
    {
        match change {
            TrackChange::AddSendTrack(t) => {
                let rec = TrackChange::AddSendTrack(t.clone_track());
                self.context.senders.push(t);
                rec
            },
            TrackChange::AddRecvTrack(t) => {
                let rec = TrackChange::AddRecvTrack(t.clone_track());
                self.context.receivers.push(t);
                rec
            },
            TrackChange::TrackPatch(p) => {
                match p.enabled_individual {
                    Some(e) => {
                        proof {
                            lemma_first_track_idx(self.context.senders@, p.id);
                            lemma_first_track_idx(self.context.receivers@, p.id);
                        }
                        let g = set_send_state(&mut self.context.senders, p.id, e);
                        match g {
                            Some(_) => {
                                TrackChange::TrackPatch(TrackPatchEvent { enabled_general: g, ..p })
                            },
                            None => {
                                proof {
                                    assert(self.context.senders@ =~= old(self).context.senders@);
                                }
                                let g2 = set_recv_state(&mut self.context.receivers, p.id, e);
                                match g2 {
                                    Some(_) => TrackChange::TrackPatch(
                                        TrackPatchEvent { enabled_general: g2, ..p },
                                    ),
                                    None => {
                                        proof {
                                            assert(self.context.receivers@ =~= old(
                                                self,
                                            ).context.receivers@);
                                        }
                                        TrackChange::TrackPatch(p)
                                    },
                                }
                            },
                        }
                    },
                    None => TrackChange::TrackPatch(p),
                }
            },
            TrackChange::PartnerTrackPatch(p) => {
                match p.enabled_individual {
                    Some(e) => {
                        proof {
                            lemma_first_track_idx(self.context.senders@, p.id);
                            lemma_first_track_idx(self.context.receivers@, p.id);
                        }
                        let mut g: Option<bool> = p.enabled_general;
                        match find_track(&self.context.senders, p.id) {
                            Some(i) => {
                                if (self.context.senders[i].send_enabled
                                    && self.context.senders[i].recv_enabled) == e {
                                    g = Some(e);
                                }
                            },
                            None => {
                                match find_track(&self.context.receivers, p.id) {
                                    Some(i) => {
                                        if (self.context.receivers[i].send_enabled
                                            && self.context.receivers[i].recv_enabled) == e {
                                            g = Some(e);
                                        }
                                    },
                                    None => {},
                                }
                            },
                        }
                        TrackChange::TrackPatch(
                            TrackPatchEvent {
                                id: p.id,
                                enabled_individual: None,
                                enabled_general: g,
                            },
                        )
                    },
                    None => TrackChange::TrackPatch(p),
                }
            },
            TrackChange::IceRestart => TrackChange::IceRestart,
        }
    }
}

impl TrackChange {
    /// Whether this change is an ICE restart.
    pub fn is_ice_restart(&self) -> (r: bool)
        ensures
            r == (*self is IceRestart),
    {
        match self {
            TrackChange::IceRestart => true,
            _ => false,
        }
    }

    /// Returns a copy of this change.
    pub fn clone_change(&self) -> (r: Self)
        ensures
            r == *self,
    {
        match self {
            TrackChange::AddSendTrack(t) => TrackChange::AddSendTrack(t.clone_track()),
            TrackChange::AddRecvTrack(t) => TrackChange::AddRecvTrack(t.clone_track()),
            TrackChange::TrackPatch(p) => TrackChange::TrackPatch(*p),
            TrackChange::PartnerTrackPatch(p) => TrackChange::PartnerTrackPatch(*p),
            TrackChange::IceRestart => TrackChange::IceRestart,
        }
    }
}

/// The index of the last ICE restart in the sequence, or `-1` when it has
/// none.
pub open spec fn last_ice_idx(s: Seq<TrackChange>) -> int
    decreases s.len(),
{
    if s.len() == 0 {
        -1
    } else if s.last() is IceRestart {
        s.len() - 1
    } else {
        last_ice_idx(s.drop_last())
    }
}

/// What [`last_ice_idx`] returns: the greatest index of an ICE restart, or
/// `-1` when there is none.
pub proof fn lemma_last_ice_idx(s: Seq<TrackChange>)
    ensures
        -1 <= last_ice_idx(s) < s.len(),
        last_ice_idx(s) >= 0 ==> s[last_ice_idx(s)] is IceRestart,
        forall|j: int| last_ice_idx(s) < j < s.len() ==> !(s[j] is IceRestart),
    decreases s.len(),
{
    if s.len() > 0 && !(s.last() is IceRestart) {
        lemma_last_ice_idx(s.drop_last());
        assert forall|j: int| last_ice_idx(s) < j < s.len() implies !(s[j] is IceRestart) by {
            if j < s.len() - 1 {
                assert(s.drop_last()[j] == s[j]);
            }
        }
    }
}

/// The first `n` elements of the sequence with every ICE restart removed
/// but the one standing at the sequence's last ICE-restart index.
pub open spec fn dedup_ice_upto(s: Seq<TrackChange>, n: int) -> Seq<TrackChange>
    decreases n,
{
    if n <= 0 {
        Seq::empty()
    } else {
        let prev = dedup_ice_upto(s, n - 1);
        if !(s[n - 1] is IceRestart) || n - 1 == last_ice_idx(s) {
            prev.push(s[n - 1])
        } else {
            prev
        }
    }
}

/// The sequence with every ICE restart removed but the last one, which
/// keeps its place among the other elements.
pub open spec fn dedup_ice(s: Seq<TrackChange>) -> Seq<TrackChange> {
    dedup_ice_upto(s, s.len() as int)
}

/// The index of the first patch with the given track ID, or `-1`.
pub open spec fn first_patch_idx(s: Seq<TrackPatchEvent>, id: TrackId) -> int
    decreases s.len(),
{
    if s.len() == 0 {
        -1
    } else if s[0].id == id {
        0
    } else {
        let rest = first_patch_idx(s.subrange(1, s.len() as int), id);
        if rest == -1 {
            -1
        } else {
            rest + 1
        }
    }
}

/// What [`first_patch_idx`] returns: the least index of a patch with the
/// given track ID, or `-1` when there is none.
pub proof fn lemma_first_patch_idx(s: Seq<TrackPatchEvent>, id: TrackId)
    ensures
        first_patch_idx(s, id) >= -1,
        first_patch_idx(s, id) == -1 ==> forall|j: int| 0 <= j < s.len() ==> s[j].id != id,
        first_patch_idx(s, id) >= 0 ==> {
            &&& first_patch_idx(s, id) < s.len()
            &&& s[first_patch_idx(s, id)].id == id
            &&& forall|j: int| 0 <= j < first_patch_idx(s, id) ==> s[j].id != id
        },
    decreases s.len(),
{
    if s.len() > 0 && s[0].id != id {
        let rest = s.subrange(1, s.len() as int);
        lemma_first_patch_idx(rest, id);
        let fr = first_patch_idx(rest, id);
        if fr >= 0 {
            assert(s[fr + 1] == rest[fr]);
            assert forall|j: int| 0 <= j < fr + 1 implies s[j].id != id by {
                if j >= 1 {
                    assert(rest[j - 1] == s[j]);
                }
            }
        } else {
            assert forall|j: int| 0 <= j < s.len() implies s[j].id != id by {
                if j >= 1 {
                    assert(0 <= j - 1 < rest.len());
                    assert(rest[j - 1].id != id);
                    assert(rest[j - 1] == s[j]);
                }
            }
        }
    }
}

/// Folds a patch into an accumulator keyed by track ID: it merges into the
/// accumulated patch of its track, or starts a fresh one at the end.
pub open spec fn merge_into(rs: Seq<TrackPatchEvent>, p: TrackPatchEvent) -> Seq<TrackPatchEvent> {
    let i = first_patch_idx(rs, p.id);
    if i >= 0 {
        rs.update(i, merge_patch(rs[i], p))
    } else {
        rs.push(
            merge_patch(
                TrackPatchEvent { id: p.id, enabled_individual: None, enabled_general: None },
                p,
            ),
        )
    }
}

/// Whether a whitelist admits the given track: an absent whitelist admits
/// every track.
pub open spec fn wl_allows(wl: Option<Seq<TrackId>>, id: TrackId) -> bool {
    match wl {
        None => true,
        Some(w) => w.contains(id),
    }
}

/// Whether the deduper takes the change out of its input: only own-member
/// patches of whitelisted tracks are drained.
pub open spec fn drained(c: TrackChange, wl: Option<Seq<TrackId>>) -> bool {
    match c {
        TrackChange::TrackPatch(p) => wl_allows(wl, p.id),
        _ => false,
    }
}

/// The patch a drained change carries.
pub open spec fn patch_of(c: TrackChange) -> TrackPatchEvent
    recommends
        c is TrackPatch || c is PartnerTrackPatch,
{
    match c {
        TrackChange::TrackPatch(p) => p,
        TrackChange::PartnerTrackPatch(p) => p,
        _ => TrackPatchEvent { id: TrackId(0), enabled_individual: None, enabled_general: None },
    }
}

/// The first `n` elements of the sequence that the deduper leaves in its
/// input.
pub open spec fn retained_upto(
    s: Seq<TrackChange>,
    wl: Option<Seq<TrackId>>,
    n: int,
) -> Seq<TrackChange>
    decreases n,
{
    if n <= 0 {
        Seq::empty()
    } else {
        let prev = retained_upto(s, wl, n - 1);
        if drained(s[n - 1], wl) {
            prev
        } else {
            prev.push(s[n - 1])
        }
    }
}

/// The accumulator after draining the first `n` elements of the sequence
/// into it.
pub open spec fn merged_upto(
    rs0: Seq<TrackPatchEvent>,
    s: Seq<TrackChange>,
    wl: Option<Seq<TrackId>>,
    n: int,
) -> Seq<TrackPatchEvent>
    decreases n,
{
    if n <= 0 {
        rs0
    } else {
        let prev = merged_upto(rs0, s, wl, n - 1);
        if drained(s[n - 1], wl) {
            merge_into(prev, patch_of(s[n - 1]))
        } else {
            prev
        }
    }
}

/// The sequence after one whole patch dedup pass: the merged patches, one
/// per track ID in first-seen order, stand first, and the non-patch
/// changes follow in their order — so a surviving ICE restart ends up
/// after the patches it was queued among.
pub open spec fn dedup_patches(s: Seq<TrackChange>) -> Seq<TrackChange> {
    merged_upto(Seq::empty(), s, None, s.len() as int).map_values(
        |p: TrackPatchEvent| TrackChange::TrackPatch(p),
    ) + retained_upto(s, None, s.len() as int)
}

/// Merges the accumulated patch of the given track with `p`, or starts a
/// fresh accumulated patch for it.
#[verifier::loop_isolation(false)]
fn merge_patch_into(result: &mut Vec<TrackPatchEvent>, p: TrackPatchEvent)
    ensures
        final(result)@ == merge_into(old(result)@, p),
{
    proof {
        lemma_first_patch_idx(old(result)@, p.id);
    }
    let mut i: usize = 0;
    while i < result.len()
        invariant
            0 <= i <= result@.len(),
            result@ == old(result)@,
            forall|j: int| 0 <= j < i ==> result@[j].id != p.id,
        decreases result@.len() - i,
    {
        if result[i].id == p.id {
            let mut cur = result[i];
            cur.merge(&p);
            result.set(i, cur);
            return ;
        }
        i = i + 1;
    }
    let mut fresh = TrackPatchEvent::new(p.id);
    fresh.merge(&p);
    result.push(fresh);
}

/// Merges patches of several change streams, keyed by track ID and, when a
/// whitelist is set, restricted to the tracks on it.
pub struct TrackPatchDeduper {
    /// The merged patches so far, one per track ID, in first-seen order.
    pub result: Vec<TrackPatchEvent>,
    /// The tracks whose patches are drained; `None` drains all of them.
    pub whitelist: Option<Vec<TrackId>>,
}

impl TrackPatchDeduper {
    /// The whitelist as the specs see it.
    pub open spec fn wl(&self) -> Option<Seq<TrackId>> {
        match self.whitelist {
            None => None,
            Some(w) => Some(w@),
        }
    }

    /// A deduper that drains patches of every track.
    pub fn new() -> (r: Self)
        ensures
            r.result@ == Seq::<TrackPatchEvent>::empty(),
            r.wl() is None,
    {
        TrackPatchDeduper { result: Vec::new(), whitelist: None }
    }

    /// A deduper that drains only patches of the whitelisted tracks.
    pub fn with_whitelist(whitelist: Vec<TrackId>) -> (r: Self)
        ensures
            r.result@ == Seq::<TrackPatchEvent>::empty(),
            r.wl() == Some(whitelist@),
    {
        TrackPatchDeduper { result: Vec::new(), whitelist: Some(whitelist) }
    }

    /// Drains the mergeable patches out of `changes` into the accumulator:
    /// own-member patches of admitted tracks leave `changes` and are merged,
    /// by track ID, into the result; everything else stays, in order.
    #[verifier::loop_isolation(false)]
    pub fn drain_merge(&mut self, changes: &mut Vec<TrackChange>)
        ensures
            final(self).whitelist == old(self).whitelist,
            final(changes)@ == retained_upto(
                old(changes)@,
                old(self).wl(),
                old(changes)@.len() as int,
            ),
            final(self).result@ == merged_upto(
                old(self).result@,
                old(changes)@,
                old(self).wl(),
                old(changes)@.len() as int,
            ),
    {
        let mut kept: Vec<TrackChange> = Vec::new();
        let mut i: usize = 0;
        while i < changes.len()
            invariant
                0 <= i <= changes@.len(),
                changes@ == old(changes)@,
                self.whitelist == old(self).whitelist,
                kept@ == retained_upto(old(changes)@, old(self).wl(), i as int),
                self.result@ == merged_upto(
                    old(self).result@,
                    old(changes)@,
                    old(self).wl(),
                    i as int,
                ),
            decreases changes@.len() - i,
        {
            let c = changes[i].clone_change();
            let take = match &c {
                TrackChange::TrackPatch(p) => {
                    match &self.whitelist {
                        None => true,
                        Some(w) => contains_track_id(w, p.id),
                    }
                },
                _ => false,
            };
            if take {
                match c {
                    TrackChange::TrackPatch(p) => merge_patch_into(&mut self.result, p),
                    _ => {},
                }
            } else {
                kept.push(c);
            }
            i = i + 1;
        }
        *changes = kept;
    }

    /// Hands the merged patches out, each as an own-member patch change, in
    /// first-seen order.
    pub fn into_inner(self) -> (r: Vec<TrackChange>)
        ensures
            r@ == self.result@.map_values(|p: TrackPatchEvent| TrackChange::TrackPatch(p)),
    {
        let mut out: Vec<TrackChange> = Vec::new();
        let mut i: usize = 0;
        while i < self.result.len()
            invariant
                0 <= i <= self.result@.len(),
                out@.len() == i,
                forall|j: int| 0 <= j < i ==> out@[j] == TrackChange::TrackPatch(self.result@[j]),
            decreases self.result@.len() - i,
        {
            out.push(TrackChange::TrackPatch(self.result[i]));
            i = i + 1;
        }
        proof {
            assert(out@ =~= self.result@.map_values(
                |p: TrackPatchEvent| TrackChange::TrackPatch(p),
            ));
        }
        out
    }
}

/// What committing the scheduled changes does to a peer whose track sets,
/// pending updates and queue were `s0`, `r0`, `p0` and `q0`: with an empty
/// queue nothing happens; otherwise the queue is drained in order onto the
/// track sets, the records land behind the pending updates, and the whole
/// pending list is deduplicated (ICE restarts first, patches second).
pub open spec fn commit_outcome(
    s0: Seq<MediaTrack>,
    r0: Seq<MediaTrack>,
    p0: Seq<TrackChange>,
    q0: Seq<TrackChange>,
    c1: Context,
) -> bool {
    if q0.len() == 0 {
        &&& c1.senders@ == s0
        &&& c1.receivers@ == r0
        &&& c1.pending_track_updates@ == p0
        &&& c1.track_changes_queue@ == q0
    } else {
        let ft = fold_tracks(s0, r0, q0);
        &&& c1.track_changes_queue@.len() == 0
        &&& c1.senders@ == ft.0
        &&& c1.receivers@ == ft.1
        &&& c1.pending_track_updates@ == dedup_patches(
            dedup_ice(p0 + fold_records(s0, r0, q0)),
        )
    }
}

/// The notification a commit sends: negotiation is needed exactly when the
/// queue held something to apply.
pub open spec fn commit_note(q0: Seq<TrackChange>, id: PeerId) -> Option<PeerId> {
    if q0.len() == 0 {
        None
    } else {
        Some(id)
    }
}

impl<S> Peer<S> {
    /// Collapses the pending ICE restarts to the last one, which keeps its
    /// place among the other pending updates.
    #[verifier::loop_isolation(false)]
    pub fn dedup_ice_restarts(&mut self)
        ensures
            final(self).state == old(self).state,
            final(self).context == (Context {
                pending_track_updates: final(self).context.pending_track_updates,
                ..old(self).context
            }),
            final(self).context.pending_track_updates@ == dedup_ice(
                old(self).context.pending_track_updates@,
            ),
    {
        proof {
            lemma_last_ice_idx(self.context.pending_track_updates@);
        }
        let ghost s = self.context.pending_track_updates@;
        let mut last: Option<usize> = None;
        let mut i: usize = 0;
        while i < self.context.pending_track_updates.len()
            invariant
                0 <= i <= s.len(),
                self.context.pending_track_updates@ == s,
                match last {
                    Some(k) => {
                        &&& k < i
                        &&& s[k as int] is IceRestart
                        &&& forall|j: int| k < j < i ==> !(s[j] is IceRestart)
                    },
                    None => forall|j: int| 0 <= j < i ==> !(s[j] is IceRestart),
                },
            decreases s.len() - i,
        {
            if self.context.pending_track_updates[i].is_ice_restart() {
                last = Some(i);
            }
            i = i + 1;
        }
        proof {
            match last {
                Some(k) => {
                    assert(k as int == last_ice_idx(s));
                },
                None => {
                    assert(last_ice_idx(s) == -1);
                },
            }
        }
        let mut out: Vec<TrackChange> = Vec::new();
        let mut j: usize = 0;
        while j < self.context.pending_track_updates.len()
            invariant
                0 <= j <= s.len(),
                self.context.pending_track_updates@ == s,
                out@ == dedup_ice_upto(s, j as int),
            decreases s.len() - j,
        {
            let c = self.context.pending_track_updates[j].clone_change();
            let keep = if c.is_ice_restart() {
                match last {
                    Some(k) => j == k,
                    None => false,
                }
            } else {
                true
            };
            if keep {
                out.push(c);
            }
            j = j + 1;
        }
        self.context.pending_track_updates = out;
    }

    /// Merges the pending patches: exactly one patch per track ID survives,
    /// standing before the other pending updates, in first-seen order.
    pub fn dedup_track_patches(&mut self)
        ensures
            final(self).state == old(self).state,
            final(self).context == (Context {
                pending_track_updates: final(self).context.pending_track_updates,
                ..old(self).context
            }),
            final(self).context.pending_track_updates@ == dedup_patches(
                old(self).context.pending_track_updates@,
            ),
    {
        let mut deduper = TrackPatchDeduper::new();
        deduper.drain_merge(&mut self.context.pending_track_updates);
        let mut merged = deduper.into_inner();
        merged.append(&mut self.context.pending_track_updates);
        self.context.pending_track_updates = merged;
    }

    /// Deduplicates the pending updates: ICE restarts collapse to the last
    /// one, then patches merge to one per track ID.
    pub fn dedup_pending_track_updates(&mut self)
        ensures
            final(self).state == old(self).state,
            final(self).context == (Context {
                pending_track_updates: final(self).context.pending_track_updates,
                ..old(self).context
            }),
            final(self).context.pending_track_updates@ == dedup_patches(
                dedup_ice(old(self).context.pending_track_updates@),
            ),
    {
        self.dedup_ice_restarts();
        self.dedup_track_patches();
    }
}

impl Peer<Stable> {
    /// A fresh peer of a new pair: `Stable`, with no SDPs, no tracks, no
    /// credentials, nothing scheduled, and unknown to its client.
    pub fn new(
        id: PeerId,
        member_id: MemberId,
        partner_peer: PeerId,
        partner_member: MemberId,
        is_force_relayed: bool,
    ) -> (r: Self)
        ensures
            r.context.id == id,
            r.context.member_id == member_id,
            r.context.partner_peer == partner_peer,
            r.context.partner_member == partner_member,
            r.context.is_force_relayed == is_force_relayed,
            r.context.ice_user is None,
            r.context.sdp_offer is None,
            r.context.sdp_answer is None,
            r.context.senders@ == Seq::<MediaTrack>::empty(),
            r.context.receivers@ == Seq::<MediaTrack>::empty(),
            r.context.endpoints@ == Seq::<WeakEndpoint>::empty(),
            !r.context.is_known_to_remote,
            r.context.pending_track_updates@ == Seq::<TrackChange>::empty(),
            r.context.track_changes_queue@ == Seq::<TrackChange>::empty(),
    {
        Peer {
            context: Context {
                id,
                member_id,
                partner_peer,
                partner_member,
                ice_user: None,
                sdp_offer: None,
                sdp_answer: None,
                receivers: Vec::new(),
                senders: Vec::new(),
                is_force_relayed,
                endpoints: Vec::new(),
                is_known_to_remote: false,
                pending_track_updates: Vec::new(),
                track_changes_queue: Vec::new(),
            },
            state: Stable,
        }
    }

    /// Applies the scheduled changes, per [`commit_outcome`], and says
    /// whether the peer now needs a negotiation: it does exactly when the
    /// queue held something.
    #[verifier::loop_isolation(false)]
    pub fn commit_scheduled_changes(&mut self) -> (r: Option<PeerId>)
        ensures
            final(self).state == old(self).state,
            same_admin(final(self).context, old(self).context),
            commit_outcome(
                old(self).context.senders@,
                old(self).context.receivers@,
                old(self).context.pending_track_updates@,
                old(self).context.track_changes_queue@,
                final(self).context,
            ),
            r == commit_note(old(self).context.track_changes_queue@, old(self).context.id),
    {
        if self.context.track_changes_queue.is_empty() {
            return None;
        }
        let ghost s0 = self.context.senders@;
        let ghost r0 = self.context.receivers@;
        let ghost p0 = self.context.pending_track_updates@;
        let ghost q0 = self.context.track_changes_queue@;
        while self.context.track_changes_queue.len() > 0
            invariant
                self.context.track_changes_queue@.len() <= q0.len(),
                ({
                    let done = q0.len() - self.context.track_changes_queue@.len();
                    &&& self.context.track_changes_queue@ == q0.subrange(
                        done as int,
                        q0.len() as int,
                    )
                    &&& (self.context.senders@, self.context.receivers@) == fold_tracks(
                        s0,
                        r0,
                        q0.subrange(0, done as int),
                    )
                    &&& self.context.pending_track_updates@ == p0 + fold_records(
                        s0,
                        r0,
                        q0.subrange(0, done as int),
                    )
                }),
                same_admin(self.context, old(self).context),
                self.state == old(self).state,
            decreases self.context.track_changes_queue@.len(),
        {
            let ghost done = q0.len() - self.context.track_changes_queue@.len();
            let c = self.context.track_changes_queue.remove(0);
            proof {
                assert(c == q0[done as int]);
                assert(self.context.track_changes_queue@ =~= q0.subrange(
                    done as int + 1,
                    q0.len() as int,
                ));
                assert(q0.subrange(0, done as int + 1).drop_last() =~= q0.subrange(0, done as int));
                assert(q0.subrange(0, done as int + 1).last() == q0[done as int]);
            }
            let rec = self.apply_change(c);
            self.context.pending_track_updates.push(rec);
        }
        proof {
            assert(q0.subrange(0, q0.len() as int) =~= q0);
        }
        self.dedup_pending_track_updates();
        Some(self.context.id)
    }

    /// Ends a negotiation: the client now knows the peer, the updates it
    /// was just told about are dropped, and whatever queued up meanwhile is
    /// committed.
    fn negotiation_finished(&mut self) -> (r: Option<PeerId>)
        ensures
            final(self).state == old(self).state,
            same_admin(
                final(self).context,
                Context { is_known_to_remote: true, ..old(self).context },
            ),
            final(self).context.is_known_to_remote,
            commit_outcome(
                old(self).context.senders@,
                old(self).context.receivers@,
                Seq::<TrackChange>::empty(),
                old(self).context.track_changes_queue@,
                final(self).context,
            ),
            r == commit_note(old(self).context.track_changes_queue@, old(self).context.id),
    {
        self.context.is_known_to_remote = true;
        self.context.pending_track_updates = Vec::new();
        self.commit_scheduled_changes()
    }

    /// Starts a renegotiation with this peer as the offerer: both SDPs are
    /// discarded and the peer waits for its local offer.
    pub fn start_as_offerer(self) -> (r: Peer<WaitLocalSdp>)
        ensures
            r.context == (Context {
                sdp_offer: None::<String>,
                sdp_answer: None::<String>,
                ..self.context
            }),
    {
        let mut context = self.context;
        context.sdp_offer = None;
        context.sdp_answer = None;
        Peer { context, state: WaitLocalSdp }
    }

    /// Starts a renegotiation with this peer as the answerer: both SDPs are
    /// discarded and the peer waits for the remote offer.
    pub fn start_as_answerer(self) -> (r: Peer<WaitRemoteSdp>)
        ensures
            r.context == (Context {
                sdp_offer: None::<String>,
                sdp_answer: None::<String>,
                ..self.context
            }),
    {
        let mut context = self.context;
        context.sdp_offer = None;
        context.sdp_answer = None;
        Peer { context, state: WaitRemoteSdp }
    }
}

impl Peer<WaitLocalSdp> {
    /// Stores the local offer; the peer then waits for the remote answer.
    pub fn set_local_offer(self, sdp_offer: String) -> (r: Peer<WaitRemoteSdp>)
        ensures
            r.context == (Context { sdp_offer: Some(sdp_offer), ..self.context }),
    {
        let mut context = self.context;
        context.sdp_offer = Some(sdp_offer);
        Peer { context, state: WaitRemoteSdp }
    }

    /// Stores the local answer; the negotiation is over and the peer is
    /// `Stable` again. Returns the peer and, when changes queued up during
    /// the negotiation, the notification that a new one is needed.
    pub fn set_local_answer(self, sdp_answer: String) -> (r: (Peer<Stable>, Option<PeerId>))
        ensures
            same_admin(
                r.0.context,
                Context {
                    sdp_answer: Some(sdp_answer),
                    is_known_to_remote: true,
                    ..self.context
                },
            ),
            r.0.context.is_known_to_remote,
            commit_outcome(
                self.context.senders@,
                self.context.receivers@,
                Seq::<TrackChange>::empty(),
                self.context.track_changes_queue@,
                r.0.context,
            ),
            r.1 == commit_note(self.context.track_changes_queue@, self.context.id),
    {
        let mut context = self.context;
        context.sdp_answer = Some(sdp_answer);
        let mut peer = Peer { context, state: Stable };
        let note = peer.negotiation_finished();
        (peer, note)
    }
}

impl Peer<WaitRemoteSdp> {
    /// Stores the remote answer; the negotiation is over and the peer is
    /// `Stable` again. Returns the peer and, when changes queued up during
    /// the negotiation, the notification that a new one is needed.
    pub fn set_remote_answer(self, sdp_answer: String) -> (r: (Peer<Stable>, Option<PeerId>))
        ensures
            same_admin(
                r.0.context,
                Context {
                    sdp_answer: Some(sdp_answer),
                    is_known_to_remote: true,
                    ..self.context
                },
            ),
            r.0.context.is_known_to_remote,
            commit_outcome(
                self.context.senders@,
                self.context.receivers@,
                Seq::<TrackChange>::empty(),
                self.context.track_changes_queue@,
                r.0.context,
            ),
            r.1 == commit_note(self.context.track_changes_queue@, self.context.id),
    {
        let mut context = self.context;
        context.sdp_answer = Some(sdp_answer);
        let mut peer = Peer { context, state: Stable };
        let note = peer.negotiation_finished();
        (peer, note)
    }

    /// Stores the remote offer; the client must now produce the answer.
    pub fn set_remote_offer(self, sdp_offer: String) -> (r: Peer<WaitLocalSdp>)
        ensures
            r.context == (Context { sdp_offer: Some(sdp_offer), ..self.context }),
    {
        let mut context = self.context;
        context.sdp_offer = Some(sdp_offer);
        Peer { context, state: WaitLocalSdp }
    }
}

/// The force-applicable changes among the first `n` elements, in order.
pub open spec fn forcible_upto(s: Seq<TrackChange>, n: int) -> Seq<TrackChange>
    decreases n,
{
    if n <= 0 {
        Seq::empty()
    } else {
        let prev = forcible_upto(s, n - 1);
        if can_force_apply(s[n - 1]) {
            prev.push(s[n - 1])
        } else {
            prev
        }
    }
}

/// The changes among the first `n` elements that cannot be forced, in
/// order.
pub open spec fn non_forcible_upto(s: Seq<TrackChange>, n: int) -> Seq<TrackChange>
    decreases n,
{
    if n <= 0 {
        Seq::empty()
    } else {
        let prev = non_forcible_upto(s, n - 1);
        if can_force_apply(s[n - 1]) {
            prev
        } else {
            prev.push(s[n - 1])
        }
    }
}

/// The IDs of the own-member patches among the first `n` records.
pub open spec fn patch_ids_upto(s: Seq<TrackChange>, n: int) -> Seq<TrackId>
    decreases n,
{
    if n <= 0 {
        Seq::empty()
    } else {
        let prev = patch_ids_upto(s, n - 1);
        match s[n - 1] {
            TrackChange::TrackPatch(p) => prev.push(p.id),
            _ => prev,
        }
    }
}

/// The merged patches a forcible commit emits, for a peer whose track
/// sets, pending updates and queue were `s0`, `r0`, `p0` and `q0`: the
/// queue's force-applicable changes are applied in order; the patches they
/// record whitelist their tracks; the pending updates and then the fresh
/// records are drained through that whitelist and merged per track ID.
pub open spec fn force_merged(
    s0: Seq<MediaTrack>,
    r0: Seq<MediaTrack>,
    p0: Seq<TrackChange>,
    q0: Seq<TrackChange>,
) -> Seq<TrackPatchEvent> {
    let forcible = forcible_upto(q0, q0.len() as int);
    let records = fold_records(s0, r0, forcible);
    let wl = Some(patch_ids_upto(records, records.len() as int));
    merged_upto(
        merged_upto(Seq::empty(), p0, wl, p0.len() as int),
        records,
        wl,
        records.len() as int,
    )
}

/// What a forcible commit does to the peer's state: the force-applicable
/// changes leave the queue and are applied to the track sets; the pending
/// patches of the affected tracks are drained away; everything else stays.
pub open spec fn force_outcome(
    s0: Seq<MediaTrack>,
    r0: Seq<MediaTrack>,
    p0: Seq<TrackChange>,
    q0: Seq<TrackChange>,
    c1: Context,
) -> bool {
    let forcible = forcible_upto(q0, q0.len() as int);
    let records = fold_records(s0, r0, forcible);
    let wl = Some(patch_ids_upto(records, records.len() as int));
    let ft = fold_tracks(s0, r0, forcible);
    &&& c1.track_changes_queue@ == non_forcible_upto(q0, q0.len() as int)
    &&& c1.senders@ == ft.0
    &&& c1.receivers@ == ft.1
    &&& c1.pending_track_updates@ == retained_upto(p0, wl, p0.len() as int)
}

impl<S> Peer<S> {
    /// Applies the force-applicable scheduled changes without a negotiation
    /// cycle, per [`force_outcome`]: patches are applied and merged, with
    /// any pending patches of the same tracks, into one batch of updates
    /// for the client; changes that need a negotiation stay queued. Returns
    /// the batch, when it is not empty, with this peer's ID.
    #[verifier::loop_isolation(false)]
    pub fn inner_force_commit_scheduled_changes(&mut self) -> (r: Option<
        (PeerId, Vec<TrackUpdate>),
    >)
        ensures
            final(self).state == old(self).state,
            same_admin(final(self).context, old(self).context),
            force_outcome(
                old(self).context.senders@,
                old(self).context.receivers@,
                old(self).context.pending_track_updates@,
                old(self).context.track_changes_queue@,
                final(self).context,
            ),
            ({
                let merged = force_merged(
                    old(self).context.senders@,
                    old(self).context.receivers@,
                    old(self).context.pending_track_updates@,
                    old(self).context.track_changes_queue@,
                );
                if merged.len() == 0 {
                    r is None
                } else {
                    match r {
                        Some(u) => u.0 == old(self).context.id && u.1@ == merged.map_values(
                            |p: TrackPatchEvent| TrackUpdate::Updated(p),
                        ),
                        None => false,
                    }
                }
            }),
    {
        let ghost s0 = self.context.senders@;
        let ghost r0 = self.context.receivers@;
        let ghost p0 = self.context.pending_track_updates@;
        let ghost q0 = self.context.track_changes_queue@;
        let mut kept: Vec<TrackChange> = Vec::new();
        let mut forcible: Vec<TrackChange> = Vec::new();
        let mut i: usize = 0;
        while i < self.context.track_changes_queue.len()
            invariant
                0 <= i <= q0.len(),
                self.context.track_changes_queue@ == q0,
                kept@ == non_forcible_upto(q0, i as int),
                forcible@ == forcible_upto(q0, i as int),
            decreases q0.len() - i,
        {
            let c = self.context.track_changes_queue[i].clone_change();
            if c.can_force_apply() {
                forcible.push(c);
            } else {
                kept.push(c);
            }
            i = i + 1;
        }
        self.context.track_changes_queue = kept;
        let ghost fq = forcible@;
        let mut records: Vec<TrackChange> = Vec::new();
        let mut k: usize = 0;
        while k < forcible.len()
            invariant
                0 <= k <= fq.len(),
                forcible@ == fq,
                (self.context.senders@, self.context.receivers@) == fold_tracks(
                    s0,
                    r0,
                    fq.subrange(0, k as int),
                ),
                records@ == fold_records(s0, r0, fq.subrange(0, k as int)),
                self.context.pending_track_updates@ == p0,
                self.context.track_changes_queue@ == non_forcible_upto(q0, q0.len() as int),
                same_admin(self.context, old(self).context),
                self.state == old(self).state,
            decreases fq.len() - k,
        {
            proof {
                assert(fq.subrange(0, k as int + 1).drop_last() =~= fq.subrange(0, k as int));
                assert(fq.subrange(0, k as int + 1).last() == fq[k as int]);
            }
            let c = forcible[k].clone_change();
            let rec = self.apply_change(c);
            records.push(rec);
            k = k + 1;
        }
        proof {
            assert(fq.subrange(0, fq.len() as int) =~= fq);
        }
        let mut wl: Vec<TrackId> = Vec::new();
        let mut m: usize = 0;
        while m < records.len()
            invariant
                0 <= m <= records@.len(),
                wl@ == patch_ids_upto(records@, m as int),
            decreases records@.len() - m,
        {
            match &records[m] {
                TrackChange::TrackPatch(p) => {
                    wl.push(p.id);
                },
                _ => {},
            }
            m = m + 1;
        }
        let mut deduper = TrackPatchDeduper::with_whitelist(wl);
        deduper.drain_merge(&mut self.context.pending_track_updates);
        deduper.drain_merge(&mut records);
        let merged = deduper.into_inner();
        if merged.len() == 0 {
            return None;
        }
        let ghost ms = deduper.result@;
        let mut updates: Vec<TrackUpdate> = Vec::new();
        let mut n: usize = 0;
        while n < merged.len()
            invariant
                0 <= n <= merged@.len(),
                merged@.len() == ms.len(),
                forall|j: int| 0 <= j < merged@.len() ==> merged@[j] == TrackChange::TrackPatch(
                    ms[j],
                ),
                updates@.len() == n,
                forall|j: int| 0 <= j < n ==> updates@[j] == TrackUpdate::Updated(ms[j]),
            decreases merged@.len() - n,
        {
            match &merged[n] {
                TrackChange::TrackPatch(p) => {
                    updates.push(TrackUpdate::Updated(*p));
                },
                _ => {},
            }
            n = n + 1;
        }
        proof {
            assert(updates@ =~= ms.map_values(|p: TrackPatchEvent| TrackUpdate::Updated(p)));
        }
        Some((self.context.id, updates))
    }
}

/// A notification a peer hands back for its room to act on.
#[derive(Clone, Debug, PartialEq, Eq)]
pub enum PeerNotification {
    /// The peer has applied changes and must renegotiate.
    NegotiationNeeded(PeerId),
    /// The peer force-applied the carried updates; no negotiation follows.
    ForceUpdate(PeerId, Vec<TrackUpdate>),
}

/// Whether two peers are in the same negotiation state.
pub open spec fn same_variant(a: PeerStateMachine, b: PeerStateMachine) -> bool {
    &&& (a is WaitLocalSdp <==> b is WaitLocalSdp)
    &&& (a is WaitRemoteSdp <==> b is WaitRemoteSdp)
    &&& (a is Stable <==> b is Stable)
}

impl PeerStateMachine {
    /// Applies the scheduled changes when the peer is `Stable`, per
    /// [`commit_outcome`]; on a negotiating peer nothing happens. Returns
    /// the peer's ID when it now needs a negotiation.
    pub fn commit_scheduled_changes(&mut self) -> (r: Option<PeerId>)
        ensures
            same_variant(*final(self), *old(self)),
            !(*old(self) is Stable) ==> *final(self) == *old(self) && r is None,
            *old(self) is Stable ==> {
                &&& same_admin(final(self).ctx(), old(self).ctx())
                &&& commit_outcome(
                    old(self).ctx().senders@,
                    old(self).ctx().receivers@,
                    old(self).ctx().pending_track_updates@,
                    old(self).ctx().track_changes_queue@,
                    final(self).ctx(),
                )
                &&& r == commit_note(old(self).ctx().track_changes_queue@, old(self).ctx().id)
            },
    {
        match self {
            PeerStateMachine::Stable(p) => p.commit_scheduled_changes(),
            _ => None,
        }
    }

    /// Commits the scheduled changes: through a negotiation when the peer
    /// is `Stable`, forcibly otherwise. Returns what the room must do:
    /// start a negotiation, send the force-applied updates, or nothing.
    pub fn force_commit_scheduled_changes(&mut self) -> (r: Option<PeerNotification>)
        ensures
            same_variant(*final(self), *old(self)),
            same_admin(final(self).ctx(), old(self).ctx()),
            *old(self) is Stable ==> {
                &&& commit_outcome(
                    old(self).ctx().senders@,
                    old(self).ctx().receivers@,
                    old(self).ctx().pending_track_updates@,
                    old(self).ctx().track_changes_queue@,
                    final(self).ctx(),
                )
                &&& if old(self).ctx().track_changes_queue@.len() == 0 {
                    r is None
                } else {
                    r == Some(PeerNotification::NegotiationNeeded(old(self).ctx().id))
                }
            },
            !(*old(self) is Stable) ==> {
                &&& force_outcome(
                    old(self).ctx().senders@,
                    old(self).ctx().receivers@,
                    old(self).ctx().pending_track_updates@,
                    old(self).ctx().track_changes_queue@,
                    final(self).ctx(),
                )
                &&& ({
                    let merged = force_merged(
                        old(self).ctx().senders@,
                        old(self).ctx().receivers@,
                        old(self).ctx().pending_track_updates@,
                        old(self).ctx().track_changes_queue@,
                    );
                    if merged.len() == 0 {
                        r is None
                    } else {
                        match r {
                            Some(PeerNotification::ForceUpdate(pid, ups)) => pid == old(
                                self,
                            ).ctx().id && ups@ == merged.map_values(
                                |p: TrackPatchEvent| TrackUpdate::Updated(p),
                            ),
                            _ => false,
                        }
                    }
                })
            },
    {
        match self {
            PeerStateMachine::Stable(p) => {
                match p.commit_scheduled_changes() {
                    Some(id) => Some(PeerNotification::NegotiationNeeded(id)),
                    None => None,
                }
            },
            PeerStateMachine::WaitLocalSdp(p) => {
                match p.inner_force_commit_scheduled_changes() {
                    Some((id, updates)) => Some(PeerNotification::ForceUpdate(id, updates)),
                    None => None,
                }
            },
            PeerStateMachine::WaitRemoteSdp(p) => {
                match p.inner_force_commit_scheduled_changes() {
                    Some((id, updates)) => Some(PeerNotification::ForceUpdate(id, updates)),
                    None => None,
                }
            },
        }
    }

    /// Appends one change to the scheduled queue; nothing is applied yet.
    pub fn schedule_change(&mut self, job: TrackChange)
        ensures
            same_variant(*final(self), *old(self)),
            final(self).ctx() == (Context {
                track_changes_queue: final(self).ctx().track_changes_queue,
                ..old(self).ctx()
            }),
            final(self).ctx().track_changes_queue@ == old(
                self,
            ).ctx().track_changes_queue@.push(job),
    {
        match self {
            PeerStateMachine::WaitLocalSdp(p) => p.context.track_changes_queue.push(job),
            PeerStateMachine::WaitRemoteSdp(p) => p.context.track_changes_queue.push(job),
            PeerStateMachine::Stable(p) => p.context.track_changes_queue.push(job),
        }
    }
}

/// The patch event a client's patch command stands for.
pub open spec fn cmd_patch(c: TrackPatchCommand) -> TrackPatchEvent {
    TrackPatchEvent { id: c.id, enabled_individual: c.enabled, enabled_general: None }
}

/// The scheduled changes that a batch of patch commands becomes, on the
/// commanded peer (`partner` false) or on its partner (`partner` true).
pub open spec fn patch_changes(cs: Seq<TrackPatchCommand>, partner: bool) -> Seq<TrackChange> {
    cs.map_values(
        |c: TrackPatchCommand|
            if partner {
                TrackChange::PartnerTrackPatch(cmd_patch(c))
            } else {
                TrackChange::TrackPatch(cmd_patch(c))
            },
    )
}

impl PeerStateMachine {
    /// Schedules the commanded patches as this member's own patches.
    #[verifier::loop_isolation(false)]
    pub fn patch_tracks(&mut self, patches: &Vec<TrackPatchCommand>)
        ensures
            same_variant(*final(self), *old(self)),
            final(self).ctx() == (Context {
                track_changes_queue: final(self).ctx().track_changes_queue,
                ..old(self).ctx()
            }),
            final(self).ctx().track_changes_queue@ == old(self).ctx().track_changes_queue@
                + patch_changes(patches@, false),
    {
        let mut i: usize = 0;
        while i < patches.len()
            invariant
                0 <= i <= patches@.len(),
                same_variant(*self, *old(self)),
                self.ctx() == (Context {
                    track_changes_queue: self.ctx().track_changes_queue,
                    ..old(self).ctx()
                }),
                self.ctx().track_changes_queue@ == old(self).ctx().track_changes_queue@
                    + patch_changes(patches@.subrange(0, i as int), false),
            decreases patches@.len() - i,
        {
            let p = patches[i];
            self.schedule_change(
                TrackChange::TrackPatch(
                    TrackPatchEvent { id: p.id, enabled_individual: p.enabled, enabled_general: None },
                ),
            );
            proof {
                assert(patches@.subrange(0, i as int + 1).drop_last() =~= patches@.subrange(
                    0,
                    i as int,
                ));
                assert(patch_changes(patches@.subrange(0, i as int + 1), false) =~= patch_changes(
                    patches@.subrange(0, i as int),
                    false,
                ).push(TrackChange::TrackPatch(cmd_patch(patches@[i as int]))));
            }
            i = i + 1;
        }
        proof {
            assert(patches@.subrange(0, patches@.len() as int) =~= patches@);
        }
    }

    /// Schedules the commanded patches as patches of the partner member.
    #[verifier::loop_isolation(false)]
    pub fn partner_patch_tracks(&mut self, patches: &Vec<TrackPatchCommand>)
        ensures
            same_variant(*final(self), *old(self)),
            final(self).ctx() == (Context {
                track_changes_queue: final(self).ctx().track_changes_queue,
                ..old(self).ctx()
            }),
            final(self).ctx().track_changes_queue@ == old(self).ctx().track_changes_queue@
                + patch_changes(patches@, true),
    {
        let mut i: usize = 0;
        while i < patches.len()
            invariant
                0 <= i <= patches@.len(),
                same_variant(*self, *old(self)),
                self.ctx() == (Context {
                    track_changes_queue: self.ctx().track_changes_queue,
                    ..old(self).ctx()
                }),
                self.ctx().track_changes_queue@ == old(self).ctx().track_changes_queue@
                    + patch_changes(patches@.subrange(0, i as int), true),
            decreases patches@.len() - i,
        {
            let p = patches[i];
            self.schedule_change(
                TrackChange::PartnerTrackPatch(
                    TrackPatchEvent { id: p.id, enabled_individual: p.enabled, enabled_general: None },
                ),
            );
            proof {
                assert(patches@.subrange(0, i as int + 1).drop_last() =~= patches@.subrange(
                    0,
                    i as int,
                ));
                assert(patch_changes(patches@.subrange(0, i as int + 1), true) =~= patch_changes(
                    patches@.subrange(0, i as int),
                    true,
                ).push(TrackChange::PartnerTrackPatch(cmd_patch(patches@[i as int]))));
            }
            i = i + 1;
        }
        proof {
            assert(patches@.subrange(0, patches@.len() as int) =~= patches@);
        }
    }

    /// Schedules an ICE restart.
    pub fn restart_ice(&mut self)
        ensures
            same_variant(*final(self), *old(self)),
            final(self).ctx() == (Context {
                track_changes_queue: final(self).ctx().track_changes_queue,
                ..old(self).ctx()
            }),
            final(self).ctx().track_changes_queue@ == old(
                self,
            ).ctx().track_changes_queue@.push(TrackChange::IceRestart),
    {
        self.schedule_change(TrackChange::IceRestart);
    }
}

/// Whether a client-facing update announces the given change, to a peer
/// whose partner member is `partner`: adds become `Added` tracks sent to or
/// received from the partner, patches become `Updated`, and an ICE restart
/// announces itself.
pub open spec fn update_matches(u: TrackUpdate, c: TrackChange, partner: Seq<char>) -> bool {
    match c {
        TrackChange::AddSendTrack(t) => match u {
            TrackUpdate::Added(tr) => {
                &&& tr.id == t.id
                &&& tr.media_type == t.media_type
                &&& match tr.direction {
                    Direction::Send { receivers, mid } => {
                        &&& receivers@.len() == 1
                        &&& receivers@[0]@ == partner
                        &&& mid == t.mid
                    },
                    _ => false,
                }
            },
            _ => false,
        },
        TrackChange::AddRecvTrack(t) => match u {
            TrackUpdate::Added(tr) => {
                &&& tr.id == t.id
                &&& tr.media_type == t.media_type
                &&& match tr.direction {
                    Direction::Recv { sender, mid } => sender@ == partner && mid == t.mid,
                    _ => false,
                }
            },
            _ => false,
        },
        TrackChange::TrackPatch(p) => u == TrackUpdate::Updated(p),
        TrackChange::PartnerTrackPatch(p) => u == TrackUpdate::Updated(p),
        TrackChange::IceRestart => u == TrackUpdate::IceRestart,
    }
}

/// Whether a change adds a track.
pub open spec fn is_add(c: TrackChange) -> bool {
    c is AddSendTrack || c is AddRecvTrack
}

/// The track-adding changes among the first `n` elements, in order.
pub open spec fn adds_upto(s: Seq<TrackChange>, n: int) -> Seq<TrackChange>
    decreases n,
{
    if n <= 0 {
        Seq::empty()
    } else {
        let prev = adds_upto(s, n - 1);
        if is_add(s[n - 1]) {
            prev.push(s[n - 1])
        } else {
            prev
        }
    }
}

impl<S> Peer<S> {
    /// This peer's ID.
    pub fn id(&self) -> (r: PeerId)
        ensures
            r == self.context.id,
    {
        self.context.id
    }

    /// The member owning this peer.
    pub fn member_id(&self) -> (r: MemberId)
        ensures
            r == self.context.member_id,
    {
        self.context.member_id.clone_id()
    }

    /// The paired peer's ID.
    pub fn partner_peer_id(&self) -> (r: PeerId)
        ensures
            r == self.context.partner_peer,
    {
        self.context.partner_peer
    }

    /// The member owning the paired peer.
    pub fn partner_member_id(&self) -> (r: MemberId)
        ensures
            r == self.context.partner_member,
    {
        self.context.partner_member.clone_id()
    }

    /// Whether this peer sends anything.
    pub fn is_sender(&self) -> (r: bool)
        ensures
            r == (self.context.senders@.len() > 0),
    {
        self.context.senders.len() > 0
    }

    /// Whether all media of this peer must be relayed through TURN.
    pub fn is_force_relayed(&self) -> (r: bool)
        ensures
            r == self.context.is_force_relayed,
    {
        self.context.is_force_relayed
    }

    /// Whether the client has been told about this peer.
    pub fn is_known_to_remote(&self) -> (r: bool)
        ensures
            r == self.context.is_known_to_remote,
    {
        self.context.is_known_to_remote
    }


    /// The tracks this peer sends.
    pub fn senders(&self) -> (r: &Vec<MediaTrack>)
        ensures
            r == &self.context.senders,
    {
        &self.context.senders
    }

    /// The tracks this peer receives.
    pub fn receivers(&self) -> (r: &Vec<MediaTrack>)
        ensures
            r == &self.context.receivers,
    {
        &self.context.receivers
    }

    /// The servers list of this peer's TURN credential, when one is
    /// attached.
    pub fn ice_servers_list(&self) -> (r: Option<Vec<IceServer>>)
        ensures
            match self.context.ice_user {
                Some(u) => r matches Some(v) && crate::ice::servers_match(v@, u),
                None => r is None,
            },
    {
        match &self.context.ice_user {
            Some(u) => Some(u.servers_list()),
            None => None,
        }
    }

    /// The updates the client has not seen yet, one per pending change, as
    /// `Event::TracksApplied` would carry them.
    #[verifier::loop_isolation(false)]
    pub fn get_updates(&self) -> (r: Vec<TrackUpdate>)
        ensures
            r@.len() == self.context.pending_track_updates@.len(),
            forall|i: int| 0 <= i < r@.len() ==> update_matches(
                r@[i],
                self.context.pending_track_updates@[i],
                self.context.partner_member@,
            ),
    {
        let mut out: Vec<TrackUpdate> = Vec::new();
        let mut i: usize = 0;
        while i < self.context.pending_track_updates.len()
            invariant
                0 <= i <= self.context.pending_track_updates@.len(),
                out@.len() == i,
                forall|j: int| 0 <= j < i ==> update_matches(
                    out@[j],
                    self.context.pending_track_updates@[j],
                    self.context.partner_member@,
                ),
            decreases self.context.pending_track_updates@.len() - i,
        {
            let u = self.change_as_update(i);
            out.push(u);
            i = i + 1;
        }
        out
    }

    /// The update announcing the pending change at `i`.
    fn change_as_update(&self, i: usize) -> (u: TrackUpdate)
        requires
            i < self.context.pending_track_updates@.len(),
        ensures
            update_matches(
                u,
                self.context.pending_track_updates@[i as int],
                self.context.partner_member@,
            ),
    {
        match &self.context.pending_track_updates[i] {
            TrackChange::AddSendTrack(t) => {
                let mut receivers: Vec<MemberId> = Vec::new();
                receivers.push(self.context.partner_member.clone_id());
                TrackUpdate::Added(
                    Track {
                        id: t.id,
                        media_type: t.media_type,
                        direction: Direction::Send { receivers, mid: t.mid() },
                    },
                )
            },
            TrackChange::AddRecvTrack(t) => TrackUpdate::Added(
                Track {
                    id: t.id,
                    media_type: t.media_type,
                    direction: Direction::Recv {
                        sender: self.context.partner_member.clone_id(),
                        mid: t.mid(),
                    },
                },
            ),
            TrackChange::TrackPatch(p) => TrackUpdate::Updated(*p),
            TrackChange::PartnerTrackPatch(p) => TrackUpdate::Updated(*p),
            TrackChange::IceRestart => TrackUpdate::IceRestart,
        }
    }

    /// The tracks the client does not know yet: one per pending
    /// track-adding change, in order.
    #[verifier::loop_isolation(false)]
    pub fn new_tracks(&self) -> (r: Vec<Track>)
        ensures
            ({
                let adds = adds_upto(
                    self.context.pending_track_updates@,
                    self.context.pending_track_updates@.len() as int,
                );
                &&& r@.len() == adds.len()
                &&& forall|i: int| 0 <= i < r@.len() ==> update_matches(
                    TrackUpdate::Added(r@[i]),
                    adds[i],
                    self.context.partner_member@,
                )
            }),
    {
        let mut out: Vec<Track> = Vec::new();
        let mut i: usize = 0;
        while i < self.context.pending_track_updates.len()
            invariant
                0 <= i <= self.context.pending_track_updates@.len(),
                ({
                    let adds = adds_upto(self.context.pending_track_updates@, i as int);
                    &&& out@.len() == adds.len()
                    &&& forall|j: int| 0 <= j < out@.len() ==> update_matches(
                        TrackUpdate::Added(out@[j]),
                        adds[j],
                        self.context.partner_member@,
                    )
                }),
            decreases self.context.pending_track_updates@.len() - i,
        {
            let keep = match &self.context.pending_track_updates[i] {
                TrackChange::AddSendTrack(_) | TrackChange::AddRecvTrack(_) => true,
                _ => false,
            };
            if keep {
                let u = self.change_as_update(i);
                match u {
                    TrackUpdate::Added(t) => {
                        out.push(t);
                    },
                    _ => {
                        proof {
                            assert(false);
                        }
                    },
                }
            }
            i = i + 1;
        }
        out
    }
}

impl PeerStateMachine {
    /// Attaches a TURN credential to this peer.
    pub fn set_ice_user(&mut self, ice_user: IceUser)
        ensures
            same_variant(*final(self), *old(self)),
            final(self).ctx() == (Context { ice_user: Some(ice_user), ..old(self).ctx() }),
    {
        match self {
            PeerStateMachine::WaitLocalSdp(p) => p.context.ice_user = Some(ice_user),
            PeerStateMachine::WaitRemoteSdp(p) => p.context.ice_user = Some(ice_user),
            PeerStateMachine::Stable(p) => p.context.ice_user = Some(ice_user),
        }
    }

    /// Takes the TURN credential off this peer, for release.
    pub fn take_ice_user(&mut self) -> (r: Option<IceUser>)
        ensures
            same_variant(*final(self), *old(self)),
            final(self).ctx() == (Context { ice_user: None::<IceUser>, ..old(self).ctx() }),
            r == old(self).ctx().ice_user,
    {
        match self {
            PeerStateMachine::WaitLocalSdp(p) => p.context.ice_user.take(),
            PeerStateMachine::WaitRemoteSdp(p) => p.context.ice_user.take(),
            PeerStateMachine::Stable(p) => p.context.ice_user.take(),
        }
    }

    /// Records an endpoint this peer was created for.
    pub fn add_endpoint(&mut self, endpoint: WeakEndpoint)
        ensures
            same_variant(*final(self), *old(self)),
            final(self).ctx() == (Context {
                endpoints: final(self).ctx().endpoints,
                ..old(self).ctx()
            }),
            final(self).ctx().endpoints@ == old(self).ctx().endpoints@.push(endpoint),
    {
        match self {
            PeerStateMachine::WaitLocalSdp(p) => p.context.endpoints.push(endpoint),
            PeerStateMachine::WaitRemoteSdp(p) => p.context.endpoints.push(endpoint),
            PeerStateMachine::Stable(p) => p.context.endpoints.push(endpoint),
        }
    }

    /// The updates the client has not seen yet.
    pub fn get_updates(&self) -> (r: Vec<TrackUpdate>)
        ensures
            r@.len() == self.ctx().pending_track_updates@.len(),
            forall|i: int| 0 <= i < r@.len() ==> update_matches(
                r@[i],
                self.ctx().pending_track_updates@[i],
                self.ctx().partner_member@,
            ),
    {
        match self {
            PeerStateMachine::WaitLocalSdp(p) => p.get_updates(),
            PeerStateMachine::WaitRemoteSdp(p) => p.get_updates(),
            PeerStateMachine::Stable(p) => p.get_updates(),
        }
    }
}

/// The index of the first mid entry for the given track, or `-1`.
pub open spec fn first_mid_idx(m: Seq<(TrackId, String)>, id: TrackId) -> int
    decreases m.len(),
{
    if m.len() == 0 {
        -1
    } else if m[0].0 == id {
        0
    } else {
        let rest = first_mid_idx(m.subrange(1, m.len() as int), id);
        if rest == -1 {
            -1
        } else {
            rest + 1
        }
    }
}

/// Whether the mids carry an entry for the given track.
pub open spec fn has_mid(m: Seq<(TrackId, String)>, id: TrackId) -> bool {
    first_mid_idx(m, id) >= 0
}

/// What [`first_mid_idx`] returns: the least index of an entry for the
/// given track, or `-1` when there is none.
pub proof fn lemma_first_mid_idx(m: Seq<(TrackId, String)>, id: TrackId)
    ensures
        first_mid_idx(m, id) >= -1,
        first_mid_idx(m, id) == -1 ==> forall|j: int| 0 <= j < m.len() ==> m[j].0 != id,
        first_mid_idx(m, id) >= 0 ==> {
            &&& first_mid_idx(m, id) < m.len()
            &&& m[first_mid_idx(m, id)].0 == id
            &&& forall|j: int| 0 <= j < first_mid_idx(m, id) ==> m[j].0 != id
        },
    decreases m.len(),
{
    if m.len() > 0 && m[0].0 != id {
        let rest = m.subrange(1, m.len() as int);
        lemma_first_mid_idx(rest, id);
        let fr = first_mid_idx(rest, id);
        if fr >= 0 {
            assert(m[fr + 1] == rest[fr]);
            assert forall|j: int| 0 <= j < fr + 1 implies m[j].0 != id by {
                if j >= 1 {
                    assert(rest[j - 1] == m[j]);
                }
            }
        } else {
            assert forall|j: int| 0 <= j < m.len() implies m[j].0 != id by {
                if j >= 1 {
                    assert(0 <= j - 1 < rest.len());
                    assert(rest[j - 1].0 != id);
                    assert(rest[j - 1] == m[j]);
                }
            }
        }
    }
}

/// Returns the index of the first mid entry for the given track, if any.
#[verifier::loop_isolation(false)]
pub(crate) fn find_mid(m: &Vec<(TrackId, String)>, id: TrackId) -> (r: Option<usize>)
    ensures
        match r {
            Some(i) => has_mid(m@, id) && i as int == first_mid_idx(m@, id) && i < m@.len()
                && m@[i as int].0 == id,
            None => !has_mid(m@, id),
        },
{
    proof {
        lemma_first_mid_idx(m@, id);
    }
    let mut i: usize = 0;
    while i < m.len()
        invariant
            0 <= i <= m@.len(),
            forall|j: int| 0 <= j < i ==> m@[j].0 != id,
        decreases m@.len() - i,
    {
        if m[i].0 == id {
            return Some(i);
        }
        i = i + 1;
    }
    None
}

/// Every track with its mid taken from its first entry in `m`.
pub open spec fn assign_mids(s: Seq<MediaTrack>, m: Seq<(TrackId, String)>) -> Seq<MediaTrack>
    recommends
        forall|i: int| 0 <= i < s.len() ==> has_mid(m, s[i].id),
{
    Seq::new(
        s.len(),
        |i: int| MediaTrack { mid: Some(m[first_mid_idx(m, s[i].id)].1), ..s[i] },
    )
}

impl Peer<WaitLocalSdp> {
    /// Attaches the client-supplied mids to the peer's tracks.
    ///
    /// Succeeds exactly when every track, sending and receiving, has an
    /// entry; otherwise nothing changes and the peer reports the mids
    /// mismatch with a track that lacks one.
    #[verifier::loop_isolation(false)]
    pub fn set_mids(&mut self, mids: &Vec<(TrackId, String)>) -> (r: Result<(), PeerError>)
        ensures
            r is Ok <==> {
                &&& forall|i: int| 0 <= i < old(self).context.senders@.len() ==> has_mid(
                    mids@,
                    old(self).context.senders@[i].id,
                )
                &&& forall|i: int| 0 <= i < old(self).context.receivers@.len() ==> has_mid(
                    mids@,
                    old(self).context.receivers@[i].id,
                )
            },
            r is Ok ==> {
                &&& final(self).state == old(self).state
                &&& final(self).context == (Context {
                    senders: final(self).context.senders,
                    receivers: final(self).context.receivers,
                    ..old(self).context
                })
                &&& final(self).context.senders@ == assign_mids(old(self).context.senders@, mids@)
                &&& final(self).context.receivers@ == assign_mids(
                    old(self).context.receivers@,
                    mids@,
                )
            },
            match r {
                Ok(_) => true,
                Err(e) => {
                    &&& *final(self) == *old(self)
                    &&& match e {
                        PeerError::MidsMismatch(tid) => !has_mid(mids@, tid) && (has_track(
                            old(self).context.senders@,
                            tid,
                        ) || has_track(old(self).context.receivers@, tid)),
                        _ => false,
                    }
                },
            },
    {
        let mut i: usize = 0;
        while i < self.context.senders.len()
            invariant
                0 <= i <= self.context.senders@.len(),
                *self == *old(self),
                forall|j: int| 0 <= j < i ==> has_mid(mids@, self.context.senders@[j].id),
            decreases self.context.senders@.len() - i,
        {
            match find_mid(mids, self.context.senders[i].id) {
                Some(_) => {},
                None => {
                    proof {
                        lemma_first_track_idx(
                            self.context.senders@,
                            self.context.senders@[i as int].id,
                        );
                    }
                    return Err(PeerError::MidsMismatch(self.context.senders[i].id));
                },
            }
            i = i + 1;
        }
        let mut i2: usize = 0;
        while i2 < self.context.receivers.len()
            invariant
                0 <= i2 <= self.context.receivers@.len(),
                *self == *old(self),
                forall|j: int| 0 <= j < i2 ==> has_mid(mids@, self.context.receivers@[j].id),
            decreases self.context.receivers@.len() - i2,
        {
            match find_mid(mids, self.context.receivers[i2].id) {
                Some(_) => {},
                None => {
                    proof {
                        lemma_first_track_idx(
                            self.context.receivers@,
                            self.context.receivers@[i2 as int].id,
                        );
                    }
                    return Err(PeerError::MidsMismatch(self.context.receivers[i2].id));
                },
            }
            i2 = i2 + 1;
        }
        let mut k: usize = 0;
        while k < self.context.senders.len()
            invariant
                0 <= k <= self.context.senders@.len(),
                self.state == old(self).state,
                self.context == (Context {
                    senders: self.context.senders,
                    ..old(self).context
                }),
                self.context.senders@.len() == old(self).context.senders@.len(),
                forall|j: int| 0 <= j < k ==> self.context.senders@[j] == assign_mids(
                    old(self).context.senders@,
                    mids@,
                )[j],
                forall|j: int| k <= j < self.context.senders@.len() ==> self.context.senders@[j]
                    == old(self).context.senders@[j],
                forall|j: int| 0 <= j < old(self).context.senders@.len() ==> has_mid(
                    mids@,
                    old(self).context.senders@[j].id,
                ),
                forall|j: int| 0 <= j < old(self).context.receivers@.len() ==> has_mid(
                    mids@,
                    old(self).context.receivers@[j].id,
                ),
            decreases self.context.senders@.len() - k,
        {
            match find_mid(mids, self.context.senders[k].id) {
                Some(j) => {
                    let mut t = self.context.senders[k].clone_track();
                    t.set_mid(mids[j].1.clone());
                    self.context.senders.set(k, t);
                },
                None => {
                    proof {
                        assert(false);
                    }
                },
            }
            k = k + 1;
        }
        proof {
            assert(self.context.senders@ =~= assign_mids(old(self).context.senders@, mids@));
        }
        let mut k2: usize = 0;
        while k2 < self.context.receivers.len()
            invariant
                0 <= k2 <= self.context.receivers@.len(),
                self.state == old(self).state,
                self.context == (Context {
                    senders: self.context.senders,
                    receivers: self.context.receivers,
                    ..old(self).context
                }),
                self.context.senders@ == assign_mids(old(self).context.senders@, mids@),
                self.context.receivers@.len() == old(self).context.receivers@.len(),
                forall|j: int| 0 <= j < k2 ==> self.context.receivers@[j] == assign_mids(
                    old(self).context.receivers@,
                    mids@,
                )[j],
                forall|j: int| k2 <= j < self.context.receivers@.len() ==> self.context.receivers@[
                    j
                ] == old(self).context.receivers@[j],
                forall|j: int| 0 <= j < old(self).context.receivers@.len() ==> has_mid(
                    mids@,
                    old(self).context.receivers@[j].id,
                ),
            decreases self.context.receivers@.len() - k2,
        {
            match find_mid(mids, self.context.receivers[k2].id) {
                Some(j) => {
                    let mut t = self.context.receivers[k2].clone_track();
                    t.set_mid(mids[j].1.clone());
                    self.context.receivers.set(k2, t);
                },
                None => {
                    proof {
                        assert(false);
                    }
                },
            }
            k2 = k2 + 1;
        }
        proof {
            assert(self.context.receivers@ =~= assign_mids(old(self).context.receivers@, mids@));
        }
        Ok(())
    }

    /// Updates the publishing state of the senders' transceivers.
    #[verifier::loop_isolation(false)]
    pub fn update_senders_statuses(&mut self, statuses: &Vec<(TrackId, bool)>)
        ensures
            final(self).state == old(self).state,
            final(self).context == (Context {
                senders: final(self).context.senders,
                ..old(self).context
            }),
            final(self).context.senders@ == apply_statuses(old(self).context.senders@, statuses@),
    {
        let mut i: usize = 0;
        while i < statuses.len()
            invariant
                0 <= i <= statuses@.len(),
                self.state == old(self).state,
                self.context == (Context {
                    senders: self.context.senders,
                    ..old(self).context
                }),
                self.context.senders@ == apply_statuses(
                    old(self).context.senders@,
                    statuses@.subrange(0, i as int),
                ),
            decreases statuses@.len() - i,
        {
            proof {
                assert(statuses@.subrange(0, i as int + 1).drop_last() =~= statuses@.subrange(
                    0,
                    i as int,
                ));
            }
            let (id, enabled) = statuses[i];
            set_transceiver_state(&mut self.context.senders, id, enabled);
            i = i + 1;
        }
        proof {
            assert(statuses@.subrange(0, statuses@.len() as int) =~= statuses@);
        }
    }
}

/// Every track with the given ID gets its transceiver flag set to `e`.
pub open spec fn upd_trans_all(s: Seq<MediaTrack>, id: TrackId, e: bool) -> Seq<MediaTrack> {
    Seq::new(
        s.len(),
        |i: int|
            if s[i].id == id {
                MediaTrack { transceiver_enabled: e, ..s[i] }
            } else {
                s[i]
            },
    )
}

/// The senders after a batch of transceiver status updates, in order.
pub open spec fn apply_statuses(s: Seq<MediaTrack>, st: Seq<(TrackId, bool)>) -> Seq<MediaTrack>
    decreases st.len(),
{
    if st.len() == 0 {
        s
    } else {
        upd_trans_all(apply_statuses(s, st.drop_last()), st.last().0, st.last().1)
    }
}

/// Sets the transceiver flag of every track with the given ID.
#[verifier::loop_isolation(false)]
fn set_transceiver_state(v: &mut Vec<MediaTrack>, id: TrackId, e: bool)
    ensures
        final(v)@ == upd_trans_all(old(v)@, id, e),
{
    let mut i: usize = 0;
    while i < v.len()
        invariant
            0 <= i <= v@.len(),
            v@.len() == old(v)@.len(),
            forall|j: int| 0 <= j < i ==> v@[j] == upd_trans_all(old(v)@, id, e)[j],
            forall|j: int| i <= j < v@.len() ==> v@[j] == old(v)@[j],
        decreases v@.len() - i,
    {
        if v[i].id == id {
            let mut t = v[i].clone_track();
            t.set_transceiver_enabled(e);
            v.set(i, t);
        }
        i = i + 1;
    }
    proof {
        assert(v@ =~= upd_trans_all(old(v)@, id, e));
    }
}

impl Peer<Stable> {
    /// The mids of this peer's sender tracks, keyed by track.
    ///
    /// Succeeds exactly when every sender has a mid; otherwise it reports
    /// the mids mismatch with a sender that lacks one.
    #[verifier::loop_isolation(false)]
    pub fn get_mids(&self) -> (r: Result<Vec<(TrackId, String)>, PeerError>)
        ensures
            r is Ok <==> (forall|i: int| 0 <= i < self.context.senders@.len()
                ==> self.context.senders@[i].mid is Some),
            match r {
                Ok(m) => {
                    &&& m@.len() == self.context.senders@.len()
                    &&& forall|i: int| 0 <= i < m@.len() ==> m@[i].0 == self.context.senders@[i].id
                        && Some(m@[i].1) == self.context.senders@[i].mid
                },
                Err(e) => match e {
                    PeerError::MidsMismatch(tid) => exists|i: int|
                        0 <= i < self.context.senders@.len() && self.context.senders@[i].id == tid
                            && self.context.senders@[i].mid is None,
                    _ => false,
                },
            },
    {
        let mut out: Vec<(TrackId, String)> = Vec::new();
        let mut i: usize = 0;
        while i < self.context.senders.len()
            invariant
                0 <= i <= self.context.senders@.len(),
                out@.len() == i,
                forall|j: int| 0 <= j < i ==> self.context.senders@[j].mid is Some,
                forall|j: int| 0 <= j < i ==> out@[j].0 == self.context.senders@[j].id && Some(
                    out@[j].1,
                ) == self.context.senders@[j].mid,
            decreases self.context.senders@.len() - i,
        {
            match self.context.senders[i].mid() {
                Some(m) => {
                    out.push((self.context.senders[i].id, m));
                },
                None => {
                    proof {
                        assert(self.context.senders@[i as int].mid is None);
                        assert(!(forall|k: int| 0 <= k < self.context.senders@.len()
                            ==> self.context.senders@[k].mid is Some)) by {
                            assert(self.context.senders@[i as int].mid is None);
                        }
                    }
                    return Err(PeerError::MidsMismatch(self.context.senders[i].id));
                },
            }
            i = i + 1;
        }
        proof {
            assert(forall|k: int| 0 <= k < self.context.senders@.len()
                ==> self.context.senders@[k].mid is Some);
        }
        Ok(out)
    }
}

impl PeerError {
    /// The error for a peer found in the wrong state, naming the state the
    /// operation expected and the one the peer is in.
    pub fn new_wrong_state(peer: &PeerStateMachine, expected: &'static str) -> (r: Self)
        ensures
            r matches PeerError::WrongState(id, exp, _) && id == peer.ctx().id && exp == expected,
    {
        PeerError::WrongState(peer.id(), expected, peer.state_name())
    }
}

/// The elements among the first `n` that are not ICE restarts, in order.
pub open spec fn strip_ice_upto(s: Seq<TrackChange>, n: int) -> Seq<TrackChange>
    decreases n,
{
    if n <= 0 {
        Seq::empty()
    } else {
        let prev = strip_ice_upto(s, n - 1);
        if s[n - 1] is IceRestart {
            prev
        } else {
            prev.push(s[n - 1])
        }
    }
}

/// Before the last ICE restart, deduplication just strips ICE restarts.
proof fn lemma_dedup_ice_prefix(s: Seq<TrackChange>, n: int)
    requires
        0 <= n <= last_ice_idx(s),
    ensures
        dedup_ice_upto(s, n) == strip_ice_upto(s, n),
    decreases n,
{
    if n > 0 {
        lemma_dedup_ice_prefix(s, n - 1);
    }
}

/// From the last ICE restart on, deduplication keeps everything.
proof fn lemma_dedup_ice_suffix(s: Seq<TrackChange>, n: int)
    requires
        last_ice_idx(s) >= 0,
        last_ice_idx(s) < n <= s.len(),
    ensures
        dedup_ice_upto(s, n) == strip_ice_upto(s, last_ice_idx(s)) + seq![s[last_ice_idx(s)]]
            + s.subrange(last_ice_idx(s) + 1, n),
    decreases n,
{
    let l = last_ice_idx(s);
    lemma_last_ice_idx(s);
    if n == l + 1 {
        lemma_dedup_ice_prefix(s, l);
        assert(strip_ice_upto(s, l) + seq![s[l]] + s.subrange(l + 1, n) =~= strip_ice_upto(
            s,
            l,
        ).push(s[l]));
    } else {
        lemma_dedup_ice_suffix(s, n - 1);
        assert(strip_ice_upto(s, l) + seq![s[l]] + s.subrange(l + 1, n) =~= (strip_ice_upto(s, l)
            + seq![s[l]] + s.subrange(l + 1, n - 1)).push(s[n - 1]));
    }
}

/// The stripped sequence holds no ICE restart.
proof fn lemma_strip_no_ice(s: Seq<TrackChange>, n: int)
    ensures
        forall|j: int| 0 <= j < strip_ice_upto(s, n).len() ==> !(strip_ice_upto(s, n)[j]
            is IceRestart),
        n >= 0 ==> strip_ice_upto(s, n).len() <= n,
    decreases n,
{
    if n > 0 {
        lemma_strip_no_ice(s, n - 1);
    }
}

/// Law: deduplicating the ICE restarts of a change list that holds at
/// least one yields exactly one, standing where the last one stood: the
/// result is the changes before the last ICE restart with every ICE
/// restart removed, then that last ICE restart, then the unchanged rest.
pub proof fn lemma_ice_restart_dedup(s: Seq<TrackChange>)
    requires
        exists|i: int| 0 <= i < s.len() && s[i] is IceRestart,
    ensures
        ({
            let l = last_ice_idx(s);
            let d = dedup_ice(s);
            &&& 0 <= l < s.len()
            &&& s[l] is IceRestart
            &&& d == strip_ice_upto(s, l) + seq![s[l]] + s.subrange(l + 1, s.len() as int)
            &&& forall|j: int| 0 <= j < d.len() ==> (d[j] is IceRestart <==> j == strip_ice_upto(
                s,
                l,
            ).len())
        }),
{
    lemma_last_ice_idx(s);
    let l = last_ice_idx(s);
    if l == -1 {
        let i = choose|i: int| 0 <= i < s.len() && s[i] is IceRestart;
        assert(!(s[i] is IceRestart));
    }
    lemma_dedup_ice_suffix(s, s.len() as int);
    lemma_strip_no_ice(s, l);
    let d = dedup_ice(s);
    let head = strip_ice_upto(s, l);
    assert forall|j: int| 0 <= j < d.len() implies (d[j] is IceRestart <==> j == head.len()) by {
        if j < head.len() {
            assert(d[j] == head[j]);
        } else if j == head.len() {
            assert(d[j] == s[l]);
        } else {
            assert(d[j] == s[l + 1 + (j - head.len() - 1)]);
        }
    }
}

/// Whether the accumulated patches hold pairwise distinct track IDs.
pub open spec fn distinct_patch_ids(rs: Seq<TrackPatchEvent>) -> bool {
    forall|i: int, j: int| 0 <= i < j < rs.len() ==> rs[i].id != rs[j].id
}

/// Merging one patch in keeps the track IDs pairwise distinct.
proof fn lemma_merge_into_distinct(rs: Seq<TrackPatchEvent>, p: TrackPatchEvent)
    requires
        distinct_patch_ids(rs),
    ensures
        distinct_patch_ids(merge_into(rs, p)),
{
    lemma_first_patch_idx(rs, p.id);
}

/// Draining any change list into a distinct accumulator keeps it distinct.
proof fn lemma_merged_upto_distinct(
    rs0: Seq<TrackPatchEvent>,
    s: Seq<TrackChange>,
    wl: Option<Seq<TrackId>>,
    n: int,
)
    requires
        distinct_patch_ids(rs0),
    ensures
        distinct_patch_ids(merged_upto(rs0, s, wl, n)),
    decreases n,
{
    if n > 0 {
        lemma_merged_upto_distinct(rs0, s, wl, n - 1);
        if drained(s[n - 1], wl) {
            lemma_merge_into_distinct(merged_upto(rs0, s, wl, n - 1), patch_of(s[n - 1]));
        }
    }
}

/// An unrestricted dedup pass leaves no own patch among the retained
/// changes.
proof fn lemma_retained_no_patch(s: Seq<TrackChange>, n: int)
    ensures
        forall|j: int| 0 <= j < retained_upto(s, None, n).len() ==> !(retained_upto(s, None, n)[j]
            is TrackPatch),
    decreases n,
{
    if n > 0 {
        lemma_retained_no_patch(s, n - 1);
    }
}

/// Law: one dedup pass leaves at most one own patch per track among the
/// pending updates, so each committed batch announces one patch per track.
pub proof fn lemma_dedup_patches_unique(s: Seq<TrackChange>)
    ensures
        ({
            let d = dedup_patches(s);
            forall|i: int, j: int|
                0 <= i < j < d.len() && d[i] is TrackPatch && d[j] is TrackPatch ==> patch_of(
                    d[i],
                ).id != patch_of(d[j]).id
        }),
{
    let kept = retained_upto(s, None, s.len() as int);
    let merged = merged_upto(Seq::empty(), s, None, s.len() as int);
    let d = dedup_patches(s);
    lemma_retained_no_patch(s, s.len() as int);
    lemma_merged_upto_distinct(Seq::empty(), s, None, s.len() as int);
    assert forall|i: int, j: int|
        0 <= i < j < d.len() && d[i] is TrackPatch && d[j] is TrackPatch implies patch_of(d[i]).id
        != patch_of(d[j]).id by {
        assert(j < merged.len()) by {
            if j >= merged.len() {
                assert(d[j] == kept[j - merged.len()]);
            }
        }
        assert(d[i] == TrackChange::TrackPatch(merged[i]));
        assert(d[j] == TrackChange::TrackPatch(merged[j]));
    }
}

/// Law: a transition into `Stable` that completes a negotiation leaves the
/// pending updates empty, provided nothing was scheduled while the
/// negotiation ran.
pub proof fn lemma_negotiation_clears_pending(
    s0: Seq<MediaTrack>,
    r0: Seq<MediaTrack>,
    q0: Seq<TrackChange>,
    c1: Context,
)
    requires
        q0.len() == 0,
        commit_outcome(s0, r0, Seq::<TrackChange>::empty(), q0, c1),
    ensures
        c1.pending_track_updates@.len() == 0,
{
}

/// Law: a whitelisted deduper drains only own patches of whitelisted
/// tracks: every other change is retained, and nothing retained is an own
/// patch of a whitelisted track.
pub proof fn lemma_whitelist_drains_only(s: Seq<TrackChange>, w: Seq<TrackId>)
    ensures
        forall|i: int|
            0 <= i < s.len() && !drained(s[i], Some(w)) ==> retained_upto(
                s,
                Some(w),
                s.len() as int,
            ).contains(s[i]),
        forall|j: int|
            0 <= j < retained_upto(s, Some(w), s.len() as int).len() ==> !drained(
                retained_upto(s, Some(w), s.len() as int)[j],
                Some(w),
            ),
{
    lemma_retained_undrained(s, Some(w), s.len() as int);
    lemma_retained_keeps(s, Some(w), s.len() as int);
}

/// Nothing retained by a dedup pass is drained by its whitelist.
proof fn lemma_retained_undrained(s: Seq<TrackChange>, wl: Option<Seq<TrackId>>, n: int)
    ensures
        forall|j: int| 0 <= j < retained_upto(s, wl, n).len() ==> !drained(
            retained_upto(s, wl, n)[j],
            wl,
        ),
    decreases n,
{
    if n > 0 {
        lemma_retained_undrained(s, wl, n - 1);
        let prev = retained_upto(s, wl, n - 1);
        let cur = retained_upto(s, wl, n);
        assert forall|j: int| 0 <= j < cur.len() implies !drained(cur[j], wl) by {
            if drained(s[n - 1], wl) {
                assert(cur == prev);
            } else if j < prev.len() {
                assert(cur[j] == prev[j]);
            } else {
                assert(cur[j] == s[n - 1]);
            }
        }
    }
}

/// Every change the whitelist does not drain is retained.
proof fn lemma_retained_keeps(s: Seq<TrackChange>, wl: Option<Seq<TrackId>>, n: int)
    ensures
        forall|i: int| 0 <= i < n && !drained(s[i], wl) ==> retained_upto(s, wl, n).contains(s[i]),
    decreases n,
{
    if n > 0 {
        lemma_retained_keeps(s, wl, n - 1);
        let prev = retained_upto(s, wl, n - 1);
        let cur = retained_upto(s, wl, n);
        assert forall|i: int| 0 <= i < n && !drained(s[i], wl) implies cur.contains(s[i]) by {
            if i < n - 1 {
                assert(prev.contains(s[i]));
                let k = choose|k: int| 0 <= k < prev.len() && prev[k] == s[i];
                if drained(s[n - 1], wl) {
                    assert(cur[k] == s[i]);
                } else {
                    assert(cur[k] == s[i]);
                }
            } else {
                assert(cur[cur.len() - 1] == s[i]);
            }
        }
    }
}

/// Whether the vector holds the given track ID.
#[verifier::loop_isolation(false)]
fn contains_track_id(v: &Vec<TrackId>, id: TrackId) -> (r: bool)
    ensures
        r == v@.contains(id),
{
    let mut i: usize = 0;
    while i < v.len()
        invariant
            0 <= i <= v@.len(),
            forall|j: int| 0 <= j < i ==> v@[j] != id,
        decreases v@.len() - i,
    {
        if v[i].0 == id.0 {
            proof {
                assert(v@[i as int] == id);
            }
            return true;
        }
        i = i + 1;
    }
    proof {
        if v@.contains(id) {
            let w = choose|j: int| 0 <= j < v@.len() && v@[j] == id;
            assert(v@[w] == id);
        }
    }
    false
}

/// An audio track as [`PeerStateMachine::add_publisher`] creates it.
pub open spec fn audio_track(id: u32, required: bool) -> MediaTrack {
    MediaTrack {
        id: TrackId(id),
        media_type: MediaType::Audio(AudioSettings { required }),
        mid: None,
        send_enabled: true,
        recv_enabled: true,
        transceiver_enabled: true,
    }
}

/// A video track as [`PeerStateMachine::add_publisher`] creates it.
pub open spec fn video_track(id: u32, required: bool, source_kind: MediaSourceKind) -> MediaTrack {
    MediaTrack {
        id: TrackId(id),
        media_type: MediaType::Video(VideoSettings { required, source_kind }),
        mid: None,
        send_enabled: true,
        recv_enabled: true,
        transceiver_enabled: true,
    }
}

/// The tracks a publish endpoint adds, with IDs counted from `start`: one
/// audio track unless audio publishing is disabled, then one device-video
/// and one display-video track unless video publishing is disabled. Only
/// the policy-required audio and device-video tracks are marked required.
pub open spec fn publisher_tracks(src: WebRtcPublishEndpoint, start: u32) -> Seq<MediaTrack> {
    let audio_on = !(src.audio_settings.publish_policy is Disabled);
    let video_on = !(src.video_settings.publish_policy is Disabled);
    let a_req = src.audio_settings.publish_policy is Required;
    let v_req = src.video_settings.publish_policy is Required;
    if audio_on && video_on {
        seq![
            audio_track(start, a_req),
            video_track((start + 1) as u32, v_req, MediaSourceKind::Device),
            video_track((start + 2) as u32, false, MediaSourceKind::Display),
        ]
    } else if audio_on {
        seq![audio_track(start, a_req)]
    } else if video_on {
        seq![
            video_track(start, v_req, MediaSourceKind::Device),
            video_track((start + 1) as u32, false, MediaSourceKind::Display),
        ]
    } else {
        Seq::empty()
    }
}

/// How many tracks a publish endpoint adds.
pub open spec fn publisher_track_count(src: WebRtcPublishEndpoint) -> int {
    publisher_tracks(src, 0).len() as int
}

impl PeerStateMachine {
    /// Schedules the tracks a publish endpoint stands for: each one as a
    /// send track on this peer and as the matching receive track on the
    /// partner peer. The track IDs come off the room's track counter.
    pub fn add_publisher(
        &mut self,
        src: &WebRtcPublishEndpoint,
        partner_peer: &mut PeerStateMachine,
        tracks_counter: &mut Counter,
    )
        requires
            old(tracks_counter).count + 3 <= u32::MAX,
        ensures
            same_variant(*final(self), *old(self)),
            final(self).ctx() == (Context {
                track_changes_queue: final(self).ctx().track_changes_queue,
                ..old(self).ctx()
            }),
            same_variant(*final(partner_peer), *old(partner_peer)),
            final(partner_peer).ctx() == (Context {
                track_changes_queue: final(partner_peer).ctx().track_changes_queue,
                ..old(partner_peer).ctx()
            }),
            ({
                let tracks = publisher_tracks(*src, old(tracks_counter).count);
                &&& final(self).ctx().track_changes_queue@ == old(
                    self,
                ).ctx().track_changes_queue@ + tracks.map_values(
                    |t: MediaTrack| TrackChange::AddSendTrack(t),
                )
                &&& final(partner_peer).ctx().track_changes_queue@ == old(
                    partner_peer,
                ).ctx().track_changes_queue@ + tracks.map_values(
                    |t: MediaTrack| TrackChange::AddRecvTrack(t),
                )
                &&& final(tracks_counter).count == old(tracks_counter).count + tracks.len()
            }),
    {
        let ghost q_self0 = self.ctx().track_changes_queue@;
        let ghost q_partner0 = partner_peer.ctx().track_changes_queue@;
        let ghost start = tracks_counter.count;
        let audio_on = match src.audio_settings.publish_policy {
            PublishPolicy::Disabled => false,
            _ => true,
        };
        let video_on = match src.video_settings.publish_policy {
            PublishPolicy::Disabled => false,
            _ => true,
        };
        if audio_on {
            let t = MediaTrack::new(
                TrackId(tracks_counter.next_id()),
                MediaType::Audio(
                    AudioSettings { required: src.audio_settings.publish_policy.required() },
                ),
            );
            self.schedule_change(TrackChange::AddSendTrack(t.clone_track()));
            partner_peer.schedule_change(TrackChange::AddRecvTrack(t));
        }
        if video_on {
            let device = MediaTrack::new(
                TrackId(tracks_counter.next_id()),
                MediaType::Video(
                    VideoSettings {
                        required: src.video_settings.publish_policy.required(),
                        source_kind: MediaSourceKind::Device,
                    },
                ),
            );
            self.schedule_change(TrackChange::AddSendTrack(device.clone_track()));
            partner_peer.schedule_change(TrackChange::AddRecvTrack(device));
            let display = MediaTrack::new(
                TrackId(tracks_counter.next_id()),
                MediaType::Video(
                    VideoSettings { required: false, source_kind: MediaSourceKind::Display },
                ),
            );
            self.schedule_change(TrackChange::AddSendTrack(display.clone_track()));
            partner_peer.schedule_change(TrackChange::AddRecvTrack(display));
        }
        proof {
            let tracks = publisher_tracks(*src, start);
            assert(self.ctx().track_changes_queue@ =~= q_self0 + tracks.map_values(
                |t: MediaTrack| TrackChange::AddSendTrack(t),
            ));
            assert(partner_peer.ctx().track_changes_queue@ =~= q_partner0 + tracks.map_values(
                |t: MediaTrack| TrackChange::AddRecvTrack(t),
            ));
        }
    }
}

impl PeerStateMachine {
    /// The tracks this peer sends.
    pub fn senders(&self) -> (r: &Vec<MediaTrack>)
        ensures
            *r == self.ctx().senders,
    {
        match self {
            PeerStateMachine::WaitLocalSdp(p) => &p.context.senders,
            PeerStateMachine::WaitRemoteSdp(p) => &p.context.senders,
            PeerStateMachine::Stable(p) => &p.context.senders,
        }
    }

    /// The tracks this peer receives.
    pub fn receivers(&self) -> (r: &Vec<MediaTrack>)
        ensures
            *r == self.ctx().receivers,
    {
        match self {
            PeerStateMachine::WaitLocalSdp(p) => &p.context.receivers,
            PeerStateMachine::WaitRemoteSdp(p) => &p.context.receivers,
            PeerStateMachine::Stable(p) => &p.context.receivers,
        }
    }

    /// Whether a TURN credential is attached to this peer.
    pub fn has_ice_user(&self) -> (r: bool)
        ensures
            r == (self.ctx().ice_user is Some),
    {
        match self {
            PeerStateMachine::WaitLocalSdp(p) => p.context.ice_user.is_some(),
            PeerStateMachine::WaitRemoteSdp(p) => p.context.ice_user.is_some(),
            PeerStateMachine::Stable(p) => p.context.ice_user.is_some(),
        }
    }

    /// How many changes wait in the scheduled queue.
    pub fn scheduled_changes_len(&self) -> (r: usize)
        ensures
            r as int == self.ctx().track_changes_queue@.len(),
    {
        match self {
            PeerStateMachine::WaitLocalSdp(p) => p.context.track_changes_queue.len(),
            PeerStateMachine::WaitRemoteSdp(p) => p.context.track_changes_queue.len(),
            PeerStateMachine::Stable(p) => p.context.track_changes_queue.len(),
        }
    }
}


} // verus!
