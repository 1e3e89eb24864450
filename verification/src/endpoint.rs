//! Declarative endpoints of a member: publishers and players, and the
//! specs they are created from.

use vstd::prelude::*;

use crate::ids::{EndpointId, MemberId, PeerId, RoomId};
use crate::track::PublishPolicy;

verus! {

/// Peer-to-peer mode of a publish endpoint.
#[derive(Clone, Copy, Debug, PartialEq, Eq, Structural)]
pub enum P2pMode {
    /// Media must flow peer-to-peer.
    Always,
    /// Media may flow peer-to-peer when possible.
    IfPossible,
    /// Media must be relayed.
    Never,
}

/// Audio part of a publish endpoint's settings.
#[derive(Clone, Copy, Debug, PartialEq, Eq, Structural)]
pub struct PublishAudioSettings {
    /// Whether and how audio is published.
    pub publish_policy: PublishPolicy,
}

/// Video part of a publish endpoint's settings.
#[derive(Clone, Copy, Debug, PartialEq, Eq, Structural)]
pub struct PublishVideoSettings {
    /// Whether and how video is published.
    pub publish_policy: PublishPolicy,
}

/// The source URI a play endpoint names: the publish endpoint of a member
/// of a room, as `local://room/member/endpoint`.
#[derive(Clone, Debug, PartialEq, Eq)]
pub struct SrcUri {
    /// Room of the named publisher.
    pub room_id: RoomId,
    /// Member owning the named publisher.
    pub member_id: MemberId,
    /// The publish endpoint itself.
    pub endpoint_id: EndpointId,
}

/// A declarative publisher: one member's outgoing media, fed to every play
/// endpoint that names it as source.
#[derive(Clone, Debug, PartialEq, Eq)]
pub struct WebRtcPublishEndpoint {
    /// Identifier within the owning member.
    pub id: EndpointId,
    /// Peer-to-peer mode.
    pub p2p: P2pMode,
    /// Audio settings.
    pub audio_settings: PublishAudioSettings,
    /// Video settings.
    pub video_settings: PublishVideoSettings,
    /// Whether media of this endpoint must be relayed through TURN.
    pub is_force_relayed: bool,
    /// Peers that were created for this endpoint.
    pub peer_ids: Vec<PeerId>,
    /// Play endpoints fed by this publisher, as (owner, endpoint) pairs.
    pub receivers: Vec<(MemberId, EndpointId)>,
}

/// A declarative player: one member's incoming media, sourced from a
/// publish endpoint.
#[derive(Clone, Debug, PartialEq, Eq)]
pub struct WebRtcPlayEndpoint {
    /// Identifier within the owning member.
    pub id: EndpointId,
    /// The publisher this player receives from.
    pub src: SrcUri,
    /// Whether media of this endpoint must be relayed through TURN.
    pub is_force_relayed: bool,
    /// The peer that was created for this endpoint, once bound.
    pub peer_id: Option<PeerId>,
}

/// A back-reference from a peer to an endpoint it was created for.
#[derive(Clone, Debug, PartialEq, Eq)]
pub struct WeakEndpoint {
    /// The member owning the endpoint.
    pub member_id: MemberId,
    /// The endpoint itself.
    pub endpoint_id: EndpointId,
    /// Whether it is a publish endpoint (else a play endpoint).
    pub is_publish: bool,
}

impl SrcUri {
    /// Returns a copy of this source URI.
    pub fn clone_uri(&self) -> (r: Self)
        ensures
            r == *self,
    {
        SrcUri {
            room_id: self.room_id.clone_id(),
            member_id: self.member_id.clone_id(),
            endpoint_id: self.endpoint_id.clone_id(),
        }
    }
}

impl WebRtcPlaySpec {
    /// Returns a copy of this spec.
    pub fn clone_spec(&self) -> (r: Self)
        ensures
            r == *self,
    {
        WebRtcPlaySpec { src: self.src.clone_uri(), force_relay: self.force_relay }
    }
}

impl WebRtcPublishEndpoint {
    /// Records that a peer was created for this endpoint.
    pub fn add_peer_id(&mut self, peer_id: PeerId)
        ensures
            final(self).peer_ids@ == old(self).peer_ids@.push(peer_id),
            final(self).id == old(self).id,
            final(self).p2p == old(self).p2p,
            final(self).audio_settings == old(self).audio_settings,
            final(self).video_settings == old(self).video_settings,
            final(self).is_force_relayed == old(self).is_force_relayed,
            final(self).receivers == old(self).receivers,
    {
        self.peer_ids.push(peer_id);
    }

    /// Records a play endpoint fed by this publisher.
    pub fn add_receiver(&mut self, member_id: MemberId, endpoint_id: EndpointId)
        ensures
            final(self).receivers@ == old(self).receivers@.push((member_id, endpoint_id)),
            final(self).id == old(self).id,
            final(self).p2p == old(self).p2p,
            final(self).audio_settings == old(self).audio_settings,
            final(self).video_settings == old(self).video_settings,
            final(self).is_force_relayed == old(self).is_force_relayed,
            final(self).peer_ids == old(self).peer_ids,
    {
        self.receivers.push((member_id, endpoint_id));
    }
}

impl WebRtcPlayEndpoint {
    /// Binds the peer created for this endpoint.
    pub fn set_peer_id(&mut self, peer_id: PeerId)
        ensures
            *final(self) == (WebRtcPlayEndpoint { peer_id: Some(peer_id), ..*old(self) }),
    {
        self.peer_id = Some(peer_id);
    }

    /// Drops the bound peer, when the peer pair went away.
    pub fn reset(&mut self)
        ensures
            *final(self) == (WebRtcPlayEndpoint { peer_id: None, ..*old(self) }),
    {
        self.peer_id = None;
    }
}

/// The spec a publish endpoint is created from.
#[derive(Clone, Copy, Debug, PartialEq, Eq, Structural)]
pub struct WebRtcPublishSpec {
    /// Peer-to-peer mode.
    pub p2p: P2pMode,
    /// Audio settings.
    pub audio_settings: PublishAudioSettings,
    /// Video settings.
    pub video_settings: PublishVideoSettings,
    /// Whether media must be relayed through TURN.
    pub force_relay: bool,
}

/// The spec a play endpoint is created from.
#[derive(Clone, Debug, PartialEq, Eq)]
pub struct WebRtcPlaySpec {
    /// The publisher to receive from.
    pub src: SrcUri,
    /// Whether media must be relayed through TURN.
    pub force_relay: bool,
}

/// An endpoint spec, as the Control API carries it.
#[derive(Clone, Debug, PartialEq, Eq)]
pub enum EndpointSpec {
    /// A publisher.
    WebRtcPublish(WebRtcPublishSpec),
    /// A player.
    WebRtcPlay(WebRtcPlaySpec),
}

} // verus!
