//! Media track descriptors: the immutable media type, the mutable exchange
//! flags, and the patches that change them.

use vstd::prelude::*;

use crate::ids::{MemberId, TrackId};

verus! {

/// Publishing policy of one media kind of a publish endpoint.
#[derive(Clone, Copy, Debug, PartialEq, Eq, Structural)]
pub enum PublishPolicy {
    /// Publish if the client can, never block on it.
    Optional,
    /// The media must be published; the track is marked required.
    Required,
    /// Do not publish this media kind at all.
    Disabled,
}

impl PublishPolicy {
    /// Whether tracks created under this policy are marked required.
    pub fn required(&self) -> (r: bool)
        ensures
            r == (*self is Required),
    {
        match self {
            PublishPolicy::Required => true,
            PublishPolicy::Optional | PublishPolicy::Disabled => false,
        }
    }
}

/// Where a video track comes from.
#[derive(Clone, Copy, Debug, PartialEq, Eq, Structural)]
pub enum MediaSourceKind {
    /// A camera or another capture device.
    Device,
    /// A shared screen.
    Display,
}

/// Audio settings of a track.
#[derive(Clone, Copy, Debug, PartialEq, Eq, Structural)]
pub struct AudioSettings {
    /// Whether the sender must publish this track.
    pub required: bool,
}

/// Video settings of a track.
#[derive(Clone, Copy, Debug, PartialEq, Eq, Structural)]
pub struct VideoSettings {
    /// Whether the sender must publish this track.
    pub required: bool,
    /// Where the video comes from.
    pub source_kind: MediaSourceKind,
}

/// The immutable media type of a track.
#[derive(Clone, Copy, Debug, PartialEq, Eq, Structural)]
pub enum MediaType {
    /// An audio track.
    Audio(AudioSettings),
    /// A video track.
    Video(VideoSettings),
}

/// One media track of a peer pair: the sender side on one peer, the
/// receiver side with the same [`TrackId`] and media type on its partner.
#[derive(Clone, Debug, PartialEq, Eq)]
pub struct MediaTrack {
    /// Identifier, shared by the sender and the receiver side.
    pub id: TrackId,
    /// The immutable media type.
    pub media_type: MediaType,
    /// Transceiver mid, set by the client after the local offer.
    pub mid: Option<String>,
    /// Whether the sending side currently exchanges media.
    pub send_enabled: bool,
    /// Whether the receiving side currently exchanges media.
    pub recv_enabled: bool,
    /// Whether the sender's transceiver is currently publishing.
    pub transceiver_enabled: bool,
}

impl MediaTrack {
    /// A fresh track of the given type: no mid yet, exchange enabled on
    /// both sides, transceiver publishing.
    pub fn new(id: TrackId, media_type: MediaType) -> (t: Self)
        ensures
            t == (MediaTrack {
                id,
                media_type,
                mid: None,
                send_enabled: true,
                recv_enabled: true,
                transceiver_enabled: true,
            }),
    {
        MediaTrack {
            id,
            media_type,
            mid: None,
            send_enabled: true,
            recv_enabled: true,
            transceiver_enabled: true,
        }
    }

    /// Returns a copy of this track.
    pub fn clone_track(&self) -> (r: Self)
        ensures
            r == *self,
    {
        MediaTrack {
            id: self.id,
            media_type: self.media_type,
            mid: match &self.mid {
                Some(m) => Some(m.clone()),
                None => None,
            },
            send_enabled: self.send_enabled,
            recv_enabled: self.recv_enabled,
            transceiver_enabled: self.transceiver_enabled,
        }
    }

    /// Flips whether the sender's transceiver publishes.
    pub fn set_transceiver_enabled(&mut self, enabled: bool)
        ensures
            *final(self) == (MediaTrack { transceiver_enabled: enabled, ..*old(self) }),
    {
        self.transceiver_enabled = enabled;
    }

    /// Sets the transceiver mid.
    pub fn set_mid(&mut self, mid: String)
        ensures
            *final(self) == (MediaTrack { mid: Some(mid), ..*old(self) }),
    {
        self.mid = Some(mid);
    }

    /// Returns the mid, if the client supplied one.
    pub fn mid(&self) -> (r: Option<String>)
        ensures
            r == self.mid,
    {
        match &self.mid {
            Some(m) => Some(m.clone()),
            None => None,
        }
    }

    /// Flips the sending side's exchange flag.
    pub fn set_send_media_exchange_state(&mut self, enabled: bool)
        ensures
            *final(self) == (MediaTrack { send_enabled: enabled, ..*old(self) }),
    {
        self.send_enabled = enabled;
    }

    /// Flips the receiving side's exchange flag.
    pub fn set_recv_media_exchange_state(&mut self, enabled: bool)
        ensures
            *final(self) == (MediaTrack { recv_enabled: enabled, ..*old(self) }),
    {
        self.recv_enabled = enabled;
    }

    /// Media flows only when both sides exchange it.
    pub fn is_media_exchange_enabled(&self) -> (r: bool)
        ensures
            r == (self.send_enabled && self.recv_enabled),
    {
        self.send_enabled && self.recv_enabled
    }
}

/// A track patch as a client sends it: at most the `enabled` intention.
#[derive(Clone, Copy, Debug, PartialEq, Eq, Structural)]
pub struct TrackPatchCommand {
    /// The track to patch.
    pub id: TrackId,
    /// The client's intention for its own side of the track.
    pub enabled: Option<bool>,
}

/// A track patch as the server applies and emits it.
#[derive(Clone, Copy, Debug, PartialEq, Eq, Structural)]
pub struct TrackPatchEvent {
    /// The track the patch is about.
    pub id: TrackId,
    /// The patched side's own exchange intention, when it changed.
    pub enabled_individual: Option<bool>,
    /// The resulting exchange state of the whole track, when known.
    pub enabled_general: Option<bool>,
}

/// Field-wise merge of two patches for one track: a later present field
/// overrides an earlier one, an absent later field keeps the earlier value.
pub open spec fn merge_patch(a: TrackPatchEvent, b: TrackPatchEvent) -> TrackPatchEvent {
    TrackPatchEvent {
        id: a.id,
        enabled_individual: if b.enabled_individual is Some {
            b.enabled_individual
        } else {
            a.enabled_individual
        },
        enabled_general: if b.enabled_general is Some {
            b.enabled_general
        } else {
            a.enabled_general
        },
    }
}

impl TrackPatchEvent {
    /// An empty patch for the given track: both fields absent.
    pub fn new(id: TrackId) -> (p: Self)
        ensures
            p == (TrackPatchEvent { id, enabled_individual: None, enabled_general: None }),
    {
        TrackPatchEvent { id, enabled_individual: None, enabled_general: None }
    }

    /// Folds another patch for the same track into this one: later present
    /// fields win.
    pub fn merge(&mut self, other: &TrackPatchEvent)
        ensures
            *final(self) == merge_patch(*old(self), *other),
    {
        if let Some(e) = other.enabled_individual {
            self.enabled_individual = Some(e);
        }
        if let Some(e) = other.enabled_general {
            self.enabled_general = Some(e);
        }
    }

    /// The patch a client command stands for: the intention applies to the
    /// commanding side; the general state is settled only when the patch is
    /// applied to a track.
    pub fn from_command(c: &TrackPatchCommand) -> (p: Self)
        ensures
            p == (TrackPatchEvent {
                id: c.id,
                enabled_individual: c.enabled,
                enabled_general: None,
            }),
    {
        TrackPatchEvent { id: c.id, enabled_individual: c.enabled, enabled_general: None }
    }
}

/// Direction of a track from one peer's point of view.
#[derive(Clone, Debug, PartialEq, Eq)]
pub enum Direction {
    /// The peer sends the track; the partner member receives it.
    Send {
        /// Members that receive the track.
        receivers: Vec<MemberId>,
        /// The transceiver mid, if known.
        mid: Option<String>,
    },
    /// The peer receives the track from the partner member.
    Recv {
        /// The member that sends the track.
        sender: MemberId,
        /// The transceiver mid, if known.
        mid: Option<String>,
    },
}

/// A track as it is announced to a client.
#[derive(Clone, Debug, PartialEq, Eq)]
pub struct Track {
    /// The track's identifier.
    pub id: TrackId,
    /// The track's media type.
    pub media_type: MediaType,
    /// The direction from the receiving client's point of view.
    pub direction: Direction,
}

/// One applied change as it is announced to a client.
#[derive(Clone, Debug, PartialEq, Eq)]
pub enum TrackUpdate {
    /// A new track was added to the peer.
    Added(Track),
    /// An existing track was patched.
    Updated(TrackPatchEvent),
    /// The peer must run an ICE restart with its next offer.
    IceRestart,
}

} // verus!
