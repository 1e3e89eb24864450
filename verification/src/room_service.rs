//! The process-wide room registry and the Control API facade over it.

use vstd::prelude::*;

use crate::errors::{RoomError, RoomServiceError};
use crate::ice::IceUser;
use crate::ids::{EndpointId, MemberId, RoomId};
use crate::local_uri::StatefulLocalUri;
use crate::member::RoomSpec;
use crate::room::Room;

verus! {

/// The registry of all live rooms, keyed by their IDs.
pub struct RoomRepository {
    /// The rooms, in creation order.
    pub rooms: Vec<Room>,
}

/// The index of the first room with the given ID, or `-1`.
pub open spec fn room_idx(s: Seq<Room>, id: Seq<char>) -> int
    decreases s.len(),
{
    if s.len() == 0 {
        -1
    } else if s[0].id@ == id {
        0
    } else {
        let rest = room_idx(s.subrange(1, s.len() as int), id);
        if rest == -1 {
            -1
        } else {
            rest + 1
        }
    }
}

/// What [`room_idx`] returns.
pub proof fn lemma_room_idx(s: Seq<Room>, id: Seq<char>)
    ensures
        room_idx(s, id) >= -1,
        room_idx(s, id) == -1 ==> forall|j: int| 0 <= j < s.len() ==> s[j].id@ != id,
        room_idx(s, id) >= 0 ==> {
            &&& room_idx(s, id) < s.len()
            &&& s[room_idx(s, id)].id@ == id
            &&& forall|j: int| 0 <= j < room_idx(s, id) ==> s[j].id@ != id
        },
    decreases s.len(),
{
    if s.len() > 0 && s[0].id@ != id {
        let rest = s.subrange(1, s.len() as int);
        lemma_room_idx(rest, id);
        let fr = room_idx(rest, id);
        if fr >= 0 {
            assert(s[fr + 1] == rest[fr]);
            assert forall|j: int| 0 <= j < fr + 1 implies s[j].id@ != id by {
                if j >= 1 {
                    assert(rest[j - 1] == s[j]);
                }
            }
        } else {
            assert forall|j: int| 0 <= j < s.len() implies s[j].id@ != id by {
                if j >= 1 {
                    assert(0 <= j - 1 < rest.len());
                    assert(rest[j - 1].id@ != id);
                    assert(rest[j - 1] == s[j]);
                }
            }
        }
    }
}

impl RoomRepository {
    /// An empty registry.
    pub fn new() -> (r: Self)
        ensures
            r.rooms@.len() == 0,
    {
        RoomRepository { rooms: Vec::new() }
    }

    /// Returns the index of the room with the given ID, if one is live.
    #[verifier::loop_isolation(false)]
    pub fn find_room(&self, id: &RoomId) -> (r: Option<usize>)
        ensures
            match r {
                Some(i) => i as int == room_idx(self.rooms@, id@) && i < self.rooms@.len()
                    && self.rooms@[i as int].id@ == id@,
                None => room_idx(self.rooms@, id@) == -1,
            },
    {
        proof {
            lemma_room_idx(self.rooms@, id@);
        }
        let mut i: usize = 0;
        while i < self.rooms.len()
            invariant
                0 <= i <= self.rooms@.len(),
                forall|j: int| 0 <= j < i ==> self.rooms@[j].id@ != id@,
            decreases self.rooms@.len() - i,
        {
            if self.rooms[i].id.eq_id(id) {
                return Some(i);
            }
            i = i + 1;
        }
        None
    }

    /// Whether a room with the given ID is live.
    pub fn contains_room_with_id(&self, id: &RoomId) -> (r: bool)
        ensures
            r == (room_idx(self.rooms@, id@) >= 0),
    {
        match self.find_room(id) {
            Some(_) => true,
            None => false,
        }
    }

    /// Adds a live room.
    pub fn add(&mut self, room: Room)
        ensures
            final(self).rooms@ == old(self).rooms@.push(room),
    {
        self.rooms.push(room);
    }

    /// Removes the room with the given ID, if one is live.
    pub fn remove(&mut self, id: &RoomId)
        ensures
            final(self).rooms@ == (if room_idx(old(self).rooms@, id@) >= 0 {
                old(self).rooms@.remove(room_idx(old(self).rooms@, id@))
            } else {
                old(self).rooms@
            }),
    {
        match self.find_room(id) {
            Some(i) => {
                let _ = self.rooms.remove(i);
            },
            None => {},
        }
    }
}

/// The states a batched delete request passes through.
///
/// It is built unvalidated; only validation, which pins all its URIs to one
/// room, turns it into the form the service accepts.
#[derive(Clone, Copy, Debug, PartialEq, Eq, Structural)]
pub struct Unvalidated;

/// See [`Unvalidated`].
#[derive(Clone, Copy, Debug, PartialEq, Eq, Structural)]
pub struct Validated;

/// A batched delete of Control API elements, in the validation state `T`.
pub struct DeleteElements<T> {
    /// The element URIs to delete.
    pub uris: Vec<StatefulLocalUri>,
    /// The validation state.
    pub state: T,
}

impl DeleteElements<Unvalidated> {
    /// An empty, unvalidated delete request.
    pub fn new() -> (r: Self)
        ensures
            r.uris@.len() == 0,
    {
        DeleteElements { uris: Vec::new(), state: Unvalidated }
    }

    /// Adds one element URI to the request.
    pub fn add_uri(&mut self, uri: StatefulLocalUri)
        ensures
            final(self).uris@ == old(self).uris@.push(uri),
    {
        self.uris.push(uri);
    }

    /// Validates the request: it must name at least one URI and all URIs
    /// must point into one room. Succeeds exactly then, carrying the URIs
    /// over unchanged; an empty request is refused as an empty list, a
    /// mixed one with the first two differing room IDs.
    #[verifier::loop_isolation(false)]
    pub fn validate(self) -> (r: Result<DeleteElements<Validated>, RoomServiceError>)
        ensures
            match r {
                Ok(v) => {
                    &&& self.uris@.len() > 0
                    &&& v.uris == self.uris
                    &&& forall|i: int| 0 <= i < self.uris@.len() ==> (
                    #[trigger] self.uris@[i]).spec_room_id() == self.uris@[0].spec_room_id()
                },
                Err(RoomServiceError::EmptyUrisList) => self.uris@.len() == 0,
                Err(RoomServiceError::NotSameRoomIds(a, b)) => {
                    &&& a@ == self.uris@[0].spec_room_id()
                    &&& exists|i: int| 0 <= i < self.uris@.len() && (
                    #[trigger] self.uris@[i]).spec_room_id() == b@ && b@ != a@
                },
                Err(_) => false,
            },
    {
        if self.uris.len() == 0 {
            return Err(RoomServiceError::EmptyUrisList);
        }
        let first = self.uris[0].room_id().clone_id();
        let mut i: usize = 1;
        while i < self.uris.len()
            invariant
                1 <= i <= self.uris@.len(),
                first@ == self.uris@[0].spec_room_id(),
                forall|j: int| 0 <= j < i ==> (#[trigger] self.uris@[j]).spec_room_id() == first@,
            decreases self.uris@.len() - i,
        {
            if !self.uris[i].room_id().eq_id(&first) {
                let offending = self.uris[i].room_id().clone_id();
                return Err(RoomServiceError::NotSameRoomIds(first, offending));
            }
            i = i + 1;
        }
        Ok(DeleteElements { uris: self.uris, state: Validated })
    }
}

/// A request to start one room from its spec.
pub struct CreateRoom {
    /// The room's spec.
    pub spec: RoomSpec,
}

/// A request to start every statically configured room.
pub struct StartStaticRooms {
    /// The room specs, as loaded from the static spec files.
    pub specs: Vec<RoomSpec>,
}

/// A request to create one endpoint in a live room.
pub struct CreateEndpointInRoom {
    /// The member to own the endpoint.
    pub member_id: MemberId,
    /// The endpoint's ID.
    pub endpoint_id: EndpointId,
    /// The endpoint's spec.
    pub spec: crate::endpoint::EndpointSpec,
}

/// A request to create one member in a live room.
pub struct CreateMemberInRoom {
    /// The member's ID.
    pub member_id: MemberId,
    /// The member's credentials.
    pub credentials: String,
}

/// A request to fetch the elements the given URIs address.
pub struct Get {
    /// The element URIs to fetch.
    pub uris: Vec<StatefulLocalUri>,
}

/// Whether every spec in the batch can start: each room ID is absent from
/// the registry, no earlier spec in the batch already uses it, and its
/// member graph loads.
pub open spec fn specs_ok(rooms: Seq<Room>, specs: Seq<RoomSpec>, n: int) -> bool {
    forall|k: int| 0 <= k < n ==> {
        &&& room_idx(rooms, (#[trigger] specs[k]).id@) == -1
        &&& (forall|j: int| 0 <= j < k ==> (#[trigger] specs[j]).id@ != specs[k].id@)
        &&& crate::member::loads_ok(specs[k].members@)
    }
}

/// The Control API facade: it owns the room registry, validates element
/// URIs, and routes creates, deletes and gets to the addressed rooms.
pub struct RoomService {
    /// The live rooms.
    pub room_repo: RoomRepository,
    /// How long a lost connection may reconnect, in milliseconds.
    pub reconnect_timeout_ms: u64,
}

/// A deleted member URI left nothing behind: the room holds neither a
/// member with that ID nor a peer owned by one.
pub open spec fn member_uri_cleared(u: StatefulLocalUri, room: Room) -> bool {
    u matches StatefulLocalUri::Member { member_id: m, .. } ==> {
        &&& forall|j: int|
            0 <= j < room.members.members@.len() ==> (#[trigger] room.members.members@[j]).id@
                != m@
        &&& forall|j: int|
            0 <= j < room.peers.peers@.len() ==> (#[trigger] room.peers.peers@[j]).ctx().member_id@
                != m@
    }
}

/// Deleting a member URI freed its TURN credentials: every credential a
/// peer of the member held in the prior room, and the member's own, is in
/// the handed-back batch.
pub open spec fn member_uri_credentials_freed(
    u: StatefulLocalUri,
    room0: Room,
    ices: Seq<IceUser>,
) -> bool {
    u matches StatefulLocalUri::Member { member_id: m, .. } ==> {
        &&& forall|oi: int|
            0 <= oi < room0.peers.peers@.len() && (#[trigger] room0.peers.peers@[
                oi
            ]).ctx().member_id@ == m@ && room0.peers.peers@[oi].ctx().ice_user is Some
                ==> ices.contains(room0.peers.peers@[oi].ctx().ice_user->0)
        &&& forall|j: int|
            0 <= j < room0.members.members@.len() && (#[trigger] room0.members.members@[j]).id@
                == m@ && room0.members.members@[j].ice_user is Some ==> ices.contains(
                room0.members.members@[j].ice_user->0,
            )
    }
}

/// A deleted endpoint URI is gone from its owner: the publisher that
/// carried the ID when one did, else the player that did.
pub open spec fn endpoint_uri_cleared(u: StatefulLocalUri, room0: Room, room1: Room) -> bool {
    u matches StatefulLocalUri::Endpoint { member_id: m, endpoint_id: e, .. } ==> {
        let ms0 = room0.members.members@;
        let mi = crate::member::member_idx(ms0, m@);
        mi >= 0 ==> {
            &&& (crate::room::has_publisher(ms0[mi], e@) ==> forall|j: int|
                0 <= j < room1.members.members@.len() && (#[trigger] room1.members.members@[j]).id@
                    == m@ ==> !crate::room::has_publisher(room1.members.members@[j], e@))
            &&& (!crate::room::has_publisher(ms0[mi], e@) && crate::room::has_player(ms0[mi], e@)
                ==> forall|j: int|
                0 <= j < room1.members.members@.len() && (#[trigger] room1.members.members@[j]).id@
                    == m@ ==> !crate::room::has_player(room1.members.members@[j], e@))
        }
    }
}

impl RoomService {
    /// A service over the given registry.
    pub fn new(room_repo: RoomRepository, reconnect_timeout_ms: u64) -> (r: Self)
        ensures
            r.room_repo == room_repo,
            r.reconnect_timeout_ms == reconnect_timeout_ms,
    {
        RoomService { room_repo, reconnect_timeout_ms }
    }

    /// Starts a room from its spec; refuses an ID already in use and a
    /// spec whose endpoint graph does not load.
    pub fn create_room(&mut self, spec: &RoomSpec) -> (r: Result<(), RoomServiceError>)
        ensures
            final(self).reconnect_timeout_ms == old(self).reconnect_timeout_ms,
            match r {
                Ok(_) => {
                    &&& room_idx(old(self).room_repo.rooms@, spec.id@) == -1
                    &&& crate::member::loads_ok(spec.members@)
                    &&& final(self).room_repo.rooms@.len() == old(self).room_repo.rooms@.len() + 1
                    &&& final(self).room_repo.rooms@ == old(self).room_repo.rooms@.push(
                        final(self).room_repo.rooms@.last(),
                    )
                    &&& final(self).room_repo.rooms@.last().id@ == spec.id@
                    &&& final(self).room_repo.rooms@.last().wf()
                    &&& final(self).room_repo.rooms@.last().peers.peers@.len() == 0
                },
                Err(RoomServiceError::RoomAlreadyExists(id)) => id@ == spec.id@ && room_idx(
                    old(self).room_repo.rooms@,
                    spec.id@,
                ) >= 0 && *final(self) == *old(self),
                Err(RoomServiceError::RoomError(_)) => room_idx(
                    old(self).room_repo.rooms@,
                    spec.id@,
                ) == -1 && !crate::member::loads_ok(spec.members@) && *final(self) == *old(self),
                Err(_) => false,
            },
    {
        proof {
            lemma_room_idx(self.room_repo.rooms@, spec.id@);
        }
        if self.room_repo.contains_room_with_id(&spec.id) {
            return Err(RoomServiceError::RoomAlreadyExists(spec.id.0.clone()));
        }
        match Room::new(spec, self.reconnect_timeout_ms) {
            Ok(room) => {
                self.room_repo.add(room);
                Ok(())
            },
            Err(e) => Err(RoomServiceError::RoomError(e)),
        }
    }

    /// Starts every statically configured room, stopping at the first spec
    /// that is refused: it succeeds exactly when every spec's room ID is
    /// fresh — against the registry and the earlier specs — and its member
    /// graph loads; the rooms are then appended in spec order.
    #[verifier::loop_isolation(false)]
    pub fn start_static_rooms(&mut self, rooms: &StartStaticRooms) -> (r: Result<
        (),
        RoomServiceError,
    >)
        ensures
            final(self).reconnect_timeout_ms == old(self).reconnect_timeout_ms,
            r is Ok <==> specs_ok(
                old(self).room_repo.rooms@,
                rooms.specs@,
                rooms.specs@.len() as int,
            ),
            r is Ok ==> {
                &&& final(self).room_repo.rooms@.len() == old(self).room_repo.rooms@.len()
                    + rooms.specs@.len()
                &&& final(self).room_repo.rooms@.subrange(
                    0,
                    old(self).room_repo.rooms@.len() as int,
                ) == old(self).room_repo.rooms@
                &&& forall|k: int| 0 <= k < rooms.specs@.len() ==> (
                #[trigger] final(self).room_repo.rooms@[old(self).room_repo.rooms@.len() + k]).id@
                    == rooms.specs@[k].id@
            },
    {
        let ghost rooms0 = self.room_repo.rooms@;
        let mut i: usize = 0;
        while i < rooms.specs.len()
            invariant
                self.reconnect_timeout_ms == old(self).reconnect_timeout_ms,
                0 <= i <= rooms.specs@.len(),
                specs_ok(rooms0, rooms.specs@, i as int),
                self.room_repo.rooms@.len() == rooms0.len() + i,
                self.room_repo.rooms@.subrange(0, rooms0.len() as int) == rooms0,
                forall|k: int| 0 <= k < i ==> (#[trigger] self.room_repo.rooms@[rooms0.len()
                    + k]).id@ == rooms.specs@[k].id@,
            decreases rooms.specs@.len() - i,
        {
            let ghost prev = self.room_repo.rooms@;
            proof {
                lemma_room_idx(prev, rooms.specs@[i as int].id@);
                lemma_room_idx(rooms0, rooms.specs@[i as int].id@);
            }
            match self.create_room(&rooms.specs[i]) {
                Ok(_) => {
                    proof {
                        assert(self.room_repo.rooms@.subrange(0, rooms0.len() as int) =~= rooms0);
                        // the fresh ID was absent from the whole registry, so
                        // also from its old part and from the earlier specs
                        assert(room_idx(rooms0, rooms.specs@[i as int].id@) == -1) by {
                            if room_idx(rooms0, rooms.specs@[i as int].id@) >= 0 {
                                let w = room_idx(rooms0, rooms.specs@[i as int].id@);
                                assert(prev[w] == rooms0[w]);
                            }
                        }
                        assert forall|j: int| 0 <= j < i implies (#[trigger] rooms.specs@[j]).id@
                            != rooms.specs@[i as int].id@ by {
                            assert(prev[rooms0.len() + j].id@ == rooms.specs@[j].id@);
                        }
                    }
                },
                Err(e) => {
                    proof {
                        // the refused spec breaks the batch's condition
                        if specs_ok(rooms0, rooms.specs@, rooms.specs@.len() as int) {
                            assert(crate::member::loads_ok(rooms.specs@[i as int].members@));
                            assert(room_idx(prev, rooms.specs@[i as int].id@) >= 0);
                            let w = room_idx(prev, rooms.specs@[i as int].id@);
                            assert(prev[w].id@ == rooms.specs@[i as int].id@);
                            if w < rooms0.len() {
                                assert(prev[w] == rooms0[w]);
                                assert(rooms0[w].id@ == rooms.specs@[i as int].id@);
                            } else {
                                let j = w - rooms0.len();
                                assert(prev[rooms0.len() + j].id@ == rooms.specs@[j].id@);
                            }
                        }
                    }
                    return Err(e);
                },
            }
            i = i + 1;
        }
        Ok(())
    }

    /// Closes the room with the given ID: it leaves the registry and every
    /// live connection of its sessions is handed back for the transport to
    /// close. A missing room is no error.
    pub fn close_room(&mut self, id: &RoomId) -> (r: (
        Vec<crate::members_manager::RpcConnection>,
        Vec<IceUser>,
    ))
        ensures
            final(self).reconnect_timeout_ms == old(self).reconnect_timeout_ms,
            ({
                let ri = room_idx(old(self).room_repo.rooms@, id@);
                if ri == -1 {
                    &&& final(self).room_repo.rooms@ == old(self).room_repo.rooms@
                    &&& r.0@.len() == 0
                    &&& r.1@.len() == 0
                } else {
                    &&& final(self).room_repo.rooms@ == old(self).room_repo.rooms@.remove(ri)
                    &&& (old(self).room_repo.rooms@[ri].wf() ==> forall|k: int|
                        0 <= k < old(self).room_repo.rooms@[ri].members.sessions@.len() ==> {
                            let st = #[trigger] old(
                                self,
                            ).room_repo.rooms@[ri].members.sessions@[k];
                            match st {
                                crate::members_manager::SessionState::Connected(c) => r.0@
                                    .contains(c),
                                crate::members_manager::SessionState::Grace(c) => r.0@.contains(
                                    c,
                                ),
                                crate::members_manager::SessionState::Disconnected => true,
                            }
                        })
                    // every TURN credential the room held comes back to be
                    // released: the peers' and the members'
                    &&& (forall|oi: int|
                        0 <= oi < old(self).room_repo.rooms@[ri].peers.peers@.len() && (
                        #[trigger] old(self).room_repo.rooms@[ri].peers.peers@[oi]).ctx().ice_user
                            is Some ==> r.1@.contains(
                            old(self).room_repo.rooms@[ri].peers.peers@[oi].ctx().ice_user->0,
                        ))
                    &&& (forall|j: int|
                        0 <= j < old(self).room_repo.rooms@[ri].members.members@.len() && (
                        #[trigger] old(self).room_repo.rooms@[ri].members.members@[j]).ice_user
                            is Some ==> r.1@.contains(
                            old(self).room_repo.rooms@[ri].members.members@[j].ice_user->0,
                        ))
                }
            }),
    {
        match self.room_repo.find_room(id) {
            Some(i) => {
                let mut room = self.room_repo.rooms.remove(i);
                let mut ices = room.peers.take_ice_users();
                let mut member_ices = room.members.take_ice_users();
                let ghost ices_a = ices@;
                let ghost ices_b = member_ices@;
                ices.append(&mut member_ices);
                proof {
                    assert forall|x: IceUser| ices_a.contains(x) || ices_b.contains(
                        x,
                    ) implies ices@.contains(x) by {
                        if ices_a.contains(x) {
                            let w = choose|w: int| 0 <= w < ices_a.len() && ices_a[w] == x;
                            assert(ices@[w] == x);
                        } else {
                            let w = choose|w: int| 0 <= w < ices_b.len() && ices_b[w] == x;
                            assert(ices@[ices_a.len() + w] == x);
                        }
                    }
                }
                let conns = if room.members.sessions.len() == room.members.members.len() {
                    room.members.drop_connections()
                } else {
                    Vec::new()
                };
                (conns, ices)
            },
            None => (Vec::new(), Vec::new()),
        }
    }

    /// Deletes the validated batch, which points into one room: when it
    /// names the room itself, the room closes, its live connections come
    /// back to shut, and every TURN credential it held comes back to be
    /// released; otherwise the named members and endpoints are removed from
    /// that room, with the `PeersRemoved` events their peers raise and the
    /// credentials those removals freed. A missing room is no error.
    #[verifier::loop_isolation(false)]
    pub fn delete_elements(&mut self, msg: DeleteElements<Validated>) -> (r: (
        Vec<(MemberId, crate::api::Event)>,
        Vec<crate::members_manager::RpcConnection>,
        Vec<IceUser>,
    ))
        ensures
            final(self).reconnect_timeout_ms == old(self).reconnect_timeout_ms,
            ({
                let rooms0 = old(self).room_repo.rooms@;
                let ri = if msg.uris@.len() == 0 {
                    -1int
                } else {
                    room_idx(rooms0, msg.uris@[0].spec_room_id())
                };
                if ri == -1 {
                    &&& final(self).room_repo.rooms@ == rooms0
                    &&& r.0@.len() == 0
                    &&& r.1@.len() == 0
                    &&& r.2@.len() == 0
                } else if exists|k: int| 0 <= k < msg.uris@.len() && (#[trigger] msg.uris@[k])
                    is Room {
                    &&& final(self).room_repo.rooms@ == rooms0.remove(ri)
                    &&& (rooms0[ri].wf() ==> forall|k: int|
                        0 <= k < rooms0[ri].members.sessions@.len() ==> {
                            let st = #[trigger] rooms0[ri].members.sessions@[k];
                            match st {
                                crate::members_manager::SessionState::Connected(c) => r.1@
                                    .contains(c),
                                crate::members_manager::SessionState::Grace(c) => r.1@.contains(
                                    c,
                                ),
                                crate::members_manager::SessionState::Disconnected => true,
                            }
                        })
                    // the closed room's TURN credentials all come back
                    &&& (forall|oi: int|
                        0 <= oi < rooms0[ri].peers.peers@.len() && (#[trigger] rooms0[
                            ri
                        ].peers.peers@[oi]).ctx().ice_user is Some ==> r.2@.contains(
                            rooms0[ri].peers.peers@[oi].ctx().ice_user->0,
                        ))
                    &&& (forall|j: int|
                        0 <= j < rooms0[ri].members.members@.len() && (#[trigger] rooms0[
                            ri
                        ].members.members@[j]).ice_user is Some ==> r.2@.contains(
                            rooms0[ri].members.members@[j].ice_user->0,
                        ))
                } else {
                    &&& final(self).room_repo.rooms@.len() == rooms0.len()
                    &&& final(self).room_repo.rooms@ == rooms0.update(
                        ri,
                        final(self).room_repo.rooms@[ri],
                    )
                    &&& final(self).room_repo.rooms@[ri].id == rooms0[ri].id
                    &&& r.1@.len() == 0
                    // every member URI of the batch is cleared out
                    &&& (rooms0[ri].wf() ==> forall|k: int|
                        0 <= k < msg.uris@.len() ==> member_uri_cleared(
                            #[trigger] msg.uris@[k],
                            final(self).room_repo.rooms@[ri],
                        ))
                    // a single-URI batch frees exactly what it removed
                    &&& (rooms0[ri].wf() && msg.uris@.len() == 1 ==> member_uri_credentials_freed(
                        msg.uris@[0],
                        rooms0[ri],
                        r.2@,
                    ))
                    &&& (rooms0[ri].wf() && msg.uris@.len() == 1 ==> endpoint_uri_cleared(
                        msg.uris@[0],
                        rooms0[ri],
                        final(self).room_repo.rooms@[ri],
                    ))
                }
            }),
    {
        if msg.uris.len() == 0 {
            return (Vec::new(), Vec::new(), Vec::new());
        }
        let room_id = msg.uris[0].room_id().clone_id();
        // does the batch close the whole room?
        let mut closes_room = false;
        let mut k: usize = 0;
        while k < msg.uris.len()
            invariant
                0 <= k <= msg.uris@.len(),
                closes_room == exists|j: int| 0 <= j < k && (#[trigger] msg.uris@[j]) is Room,
            decreases msg.uris@.len() - k,
        {
            let ghost before = closes_room;
            match &msg.uris[k] {
                StatefulLocalUri::Room { .. } => {
                    closes_room = true;
                    proof {
                        assert(msg.uris@[k as int] is Room);
                    }
                },
                _ => {},
            }
            k = k + 1;
        }
        if closes_room {
            let (conns, ices) = self.close_room(&room_id);
            return (Vec::new(), conns, ices);
        }
        let ri = match self.room_repo.find_room(&room_id) {
            Some(i) => i,
            None => {
                return (Vec::new(), Vec::new(), Vec::new());
            },
        };
        let ghost rooms0 = self.room_repo.rooms@;
        let mut room = self.room_repo.rooms.remove(ri);
        let mut events: Vec<(MemberId, crate::api::Event)> = Vec::new();
        let mut ices: Vec<IceUser> = Vec::new();
        if room.members.sessions.len() == room.members.members.len() {
            let mut i: usize = 0;
            while i < msg.uris.len()
                invariant
                    room.wf(),
                    room.id == rooms0[ri as int].id,
                    0 <= i <= msg.uris@.len(),
                    i == 0 ==> room == rooms0[ri as int],
                    i == 0 ==> ices@.len() == 0,
                    forall|k2: int| 0 <= k2 < i ==> member_uri_cleared(
                        #[trigger] msg.uris@[k2],
                        room,
                    ),
                    msg.uris@.len() == 1 && i == 1 ==> member_uri_credentials_freed(
                        msg.uris@[0],
                        rooms0[ri as int],
                        ices@,
                    ),
                    msg.uris@.len() == 1 && i == 1 ==> endpoint_uri_cleared(
                        msg.uris@[0],
                        rooms0[ri as int],
                        room,
                    ),
                decreases msg.uris@.len() - i,
            {
                let ghost room_b = room;
                let ghost ices_b = ices@;
                match &msg.uris[i] {
                    StatefulLocalUri::Room { .. } => {},
                    StatefulLocalUri::Member { member_id, .. } => {
                        let (mut evs, mut ice) = room.delete_member(member_id);
                        events.append(&mut evs);
                        let ghost fresh = ice@;
                        ices.append(&mut ice);
                        proof {
                            assert forall|x: IceUser| ices_b.contains(x) || fresh.contains(
                                x,
                            ) implies ices@.contains(x) by {
                                if ices_b.contains(x) {
                                    let w = choose|w: int|
                                        0 <= w < ices_b.len() && ices_b[w] == x;
                                    assert(ices@[w] == x);
                                } else {
                                    let w = choose|w: int| 0 <= w < fresh.len() && fresh[w] == x;
                                    assert(ices@[ices_b.len() + w] == x);
                                }
                            }
                            assert forall|k2: int| 0 <= k2 < i + 1 implies member_uri_cleared(
                                #[trigger] msg.uris@[k2],
                                room,
                            ) by {
                                match msg.uris@[k2] {
                                    StatefulLocalUri::Member { member_id: m, .. } => {
                                        if k2 < i as int {
                                            assert(member_uri_cleared(msg.uris@[k2], room_b));
                                            assert forall|j: int|
                                                0 <= j < room.members.members@.len() implies (
                                            #[trigger] room.members.members@[j]).id@ != m@ by {
                                                let j2 = choose|j2: int|
                                                    0 <= j2 < room_b.members.members@.len()
                                                        && room.members.members@[j].id
                                                        == room_b.members.members@[j2].id;
                                                assert(room_b.members.members@[j2].id@ != m@);
                                            }
                                            assert forall|j: int|
                                                0 <= j < room.peers.peers@.len() implies (
                                            #[trigger] room.peers.peers@[j]).ctx().member_id@
                                                != m@ by {
                                                assert(room_b.peers.peers@.contains(
                                                    room.peers.peers@[j],
                                                ));
                                                let oi = choose|oi: int|
                                                    0 <= oi < room_b.peers.peers@.len()
                                                        && room_b.peers.peers@[oi]
                                                        == room.peers.peers@[j];
                                                assert(room_b.peers.peers@[oi].ctx().member_id@
                                                    != m@);
                                            }
                                        }
                                    },
                                    _ => {},
                                }
                            }
                            if msg.uris@.len() == 1 {
                                assert(ices@ =~= fresh);
                                assert(member_uri_credentials_freed(
                                    msg.uris@[0],
                                    rooms0[ri as int],
                                    ices@,
                                ));
                                assert(endpoint_uri_cleared(
                                    msg.uris@[0],
                                    rooms0[ri as int],
                                    room,
                                ));
                            }
                        }
                    },
                    StatefulLocalUri::Endpoint { member_id, endpoint_id, .. } => {
                        let (mut evs, mut ice) = room.delete_endpoint(member_id, endpoint_id);
                        events.append(&mut evs);
                        let ghost fresh = ice@;
                        ices.append(&mut ice);
                        proof {
                            crate::member::lemma_member_idx(room_b.members.members@, member_id@);
                            assert forall|k2: int| 0 <= k2 < i + 1 implies member_uri_cleared(
                                #[trigger] msg.uris@[k2],
                                room,
                            ) by {
                                match msg.uris@[k2] {
                                    StatefulLocalUri::Member { member_id: m, .. } => {
                                        if k2 < i as int {
                                            assert(member_uri_cleared(msg.uris@[k2], room_b));
                                            if crate::member::member_idx(
                                                room_b.members.members@,
                                                member_id@,
                                            ) == -1 {
                                                assert(room == room_b);
                                            } else {
                                                assert forall|j: int|
                                                    0 <= j < room.members.members@.len() implies (
                                                #[trigger] room.members.members@[j]).id@ != m@ by {
                                                    assert(room.members.members@[j].id
                                                        == room_b.members.members@[j].id);
                                                }
                                                assert forall|j: int|
                                                    0 <= j < room.peers.peers@.len() implies (
                                                #[trigger] room.peers.peers@[j]).ctx().member_id@
                                                    != m@ by {
                                                    assert(room_b.peers.peers@.contains(
                                                        room.peers.peers@[j],
                                                    ));
                                                    let oi = choose|oi: int|
                                                        0 <= oi < room_b.peers.peers@.len()
                                                            && room_b.peers.peers@[oi]
                                                            == room.peers.peers@[j];
                                                    assert(room_b.peers.peers@[
                                                        oi
                                                    ].ctx().member_id@ != m@);
                                                }
                                            }
                                        } else {
                                            assert(msg.uris@[k2] is Endpoint);
                                        }
                                    },
                                    _ => {},
                                }
                            }
                            if msg.uris@.len() == 1 {
                                assert(member_uri_credentials_freed(
                                    msg.uris@[0],
                                    rooms0[ri as int],
                                    ices@,
                                ));
                                assert(endpoint_uri_cleared(
                                    msg.uris@[0],
                                    rooms0[ri as int],
                                    room,
                                ));
                            }
                        }
                    },
                }
                i = i + 1;
            }
        }
        self.room_repo.rooms.insert(ri, room);
        proof {
            assert(self.room_repo.rooms@ =~= rooms0.update(
                ri as int,
                self.room_repo.rooms@[ri as int],
            ));
        }
        (events, Vec::new(), ices)
    }
}

} // verus!