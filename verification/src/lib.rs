//! Verified core of a WebRTC signalling server.
//!
//! The crate models the signalling state of media `Room`s: the per-`Peer`
//! SDP negotiation state machine with deferred track changes and their
//! deduplication, the repository that owns the peer pairs of a room, the
//! member session lifecycle with reconnect grace, and the Control API that
//! creates, inspects and deletes rooms, members and endpoints addressed by
//! `local://` URIs. All I/O (transports, timers, TURN) stays outside: the
//! library takes plain values and answers with plain values and actions.

pub mod api;
pub mod conf;
pub mod control_api;
pub mod endpoint;
pub mod errors;
pub mod ice;
pub mod ids;
pub mod local_uri;
pub mod media_exchange;
pub mod member;
pub mod pages;
pub mod members_manager;
pub mod peer;
pub mod peers;
pub mod room;
pub mod room_service;
pub mod snapshots;
pub mod track;

pub use ids::{Counter, MemberId, PeerId, RoomId, TrackId};
