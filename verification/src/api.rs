//! The Client API messages: commands a client sends and events it
//! receives.

use vstd::prelude::*;

use crate::ice::IceServer;
use crate::ids::{PeerId, TrackId};
use crate::track::{Track, TrackPatchCommand, TrackUpdate};

verus! {

/// A trickled ICE candidate.
#[derive(Clone, Debug, PartialEq, Eq)]
pub struct IceCandidate {
    /// The candidate line.
    pub candidate: String,
    /// The media line the candidate belongs to, when the client sent one.
    pub sdp_m_line_index: Option<u32>,
    /// The mid the candidate belongs to, when the client sent one.
    pub sdp_mid: Option<String>,
}

impl IceCandidate {
    /// Returns a copy of this candidate.
    pub fn clone_candidate(&self) -> (r: Self)
        ensures
            r == *self,
    {
        IceCandidate {
            candidate: self.candidate.clone(),
            sdp_m_line_index: self.sdp_m_line_index,
            sdp_mid: match &self.sdp_mid {
                Some(m) => Some(m.clone()),
                None => None,
            },
        }
    }
}

/// Connection metrics a client reports; observed but never acted on.
#[derive(Clone, Debug, PartialEq, Eq)]
pub struct PeerMetrics {
    /// The reported payload, as the transport delivered it.
    pub payload: String,
}

/// A command a client sends to its room.
#[derive(Clone, Debug, PartialEq, Eq)]
pub enum Command {
    /// The client produced an SDP offer for one of its peers.
    MakeSdpOffer {
        /// The offering peer.
        peer_id: PeerId,
        /// The offer.
        sdp_offer: String,
        /// Transceiver mids, one per track of the peer.
        mids: Vec<(TrackId, String)>,
    },
    /// The client produced an SDP answer for one of its peers.
    MakeSdpAnswer {
        /// The answering peer.
        peer_id: PeerId,
        /// The answer.
        sdp_answer: String,
    },
    /// The client found an ICE candidate for one of its peers.
    SetIceCandidate {
        /// The peer the candidate belongs to.
        peer_id: PeerId,
        /// The candidate.
        candidate: IceCandidate,
    },
    /// The client asks to patch tracks of one of its peers.
    UpdateTracks {
        /// The peer whose tracks are patched.
        peer_id: PeerId,
        /// The patches.
        tracks_patches: Vec<TrackPatchCommand>,
    },
    /// The client reports connection metrics.
    AddPeerConnectionMetrics {
        /// The peer the metrics are about.
        peer_id: PeerId,
        /// The metrics.
        metrics: PeerMetrics,
    },
}

/// Which side of the next negotiation a peer takes.
#[derive(Clone, Copy, Debug, PartialEq, Eq, Structural)]
pub enum NegotiationRole {
    /// The peer must produce the offer.
    Offerer,
    /// The peer must produce the answer.
    Answerer,
}

/// An event a room sends to a member's client.
#[derive(Clone, Debug, PartialEq, Eq)]
pub enum Event {
    /// A new peer must be created on the client.
    PeerCreated {
        /// The client-side peer to create.
        peer_id: PeerId,
        /// The remote offer to answer, or nothing when this side offers.
        sdp_offer: Option<String>,
        /// The peer's tracks.
        tracks: Vec<Track>,
        /// TURN servers for the peer.
        ice_servers: Vec<IceServer>,
        /// Whether media must be relayed.
        force_relay: bool,
    },
    /// The partner answered this client's offer.
    SdpAnswerMade {
        /// The peer the answer is for.
        peer_id: PeerId,
        /// The answer.
        sdp_answer: String,
    },
    /// The partner found an ICE candidate.
    IceCandidateDiscovered {
        /// The peer the candidate is for.
        peer_id: PeerId,
        /// The candidate.
        candidate: IceCandidate,
    },
    /// Peers went away and must be dropped on the client.
    PeersRemoved {
        /// The peers to drop.
        peer_ids: Vec<PeerId>,
    },
    /// Track changes were applied to a peer.
    TracksApplied {
        /// The peer the changes are about.
        peer_id: PeerId,
        /// The applied changes.
        updates: Vec<TrackUpdate>,
        /// The side the peer takes in the negotiation these changes ride
        /// on, or nothing when they were applied forcibly.
        negotiation_role: Option<NegotiationRole>,
    },
}

} // verus!
