//! The typed entry point of the Control API: it parses element URIs,
//! matches the spec kind against the URI depth, and routes each request to
//! the room service.

use vstd::prelude::*;
use vstd::string::StringExecFns;

use crate::endpoint::EndpointSpec;
use crate::errors::{code_of, ErrorCode, ErrorResponse};
use crate::ice::TurnAuthService;
use crate::ids::{MemberId, RoomId};
use crate::local_uri::{
    count_char, has_empty_segment, local_prefix, parse_local_uri, starts_with, uri_matches,
    StatefulLocalUri,
};
use crate::member::{MemberSpec, RoomSpec};
use crate::room_service::{DeleteElements, RoomService};

verus! {


/// Whether the URI text is well formed: non-empty, carrying the scheme, at
/// most three segments, none of them empty.
pub open spec fn uri_wf(s: Seq<char>) -> bool {
    &&& s.len() > 0
    &&& starts_with(s, local_prefix())
    &&& count_char(s.skip(8), '/') < 3
    &&& !has_empty_segment(s.skip(8))
}

/// The error code a refused URI text maps to, when it is not well formed.
pub open spec fn parse_code_of(s: Seq<char>) -> crate::errors::ErrorCode {
    if s.len() == 0 {
        ErrorCode::EmptyElementId
    } else if !starts_with(s, local_prefix()) {
        ErrorCode::ElementIdIsNotLocal
    } else if count_char(s.skip(8), '/') >= 3 {
        ErrorCode::ElementIdIsTooLong
    } else {
        ErrorCode::MissingFieldsInSrcUri
    }
}

/// Whether the service's registry and settings are unchanged.
pub open spec fn service_unchanged(pre: RoomService, post: RoomService) -> bool {
    &&& post.room_repo.rooms@ == pre.room_repo.rooms@
    &&& post.reconnect_timeout_ms == pre.reconnect_timeout_ms
}


/// Whether some decomposition reads the text as a room URI.
pub open spec fn matches_room(s: Seq<char>) -> bool {
    exists|rid: RoomId| uri_matches(s, StatefulLocalUri::Room { room_id: rid })
}

/// Whether some decomposition reads the text as a member URI.
pub open spec fn matches_member(s: Seq<char>) -> bool {
    exists|rid: RoomId, mid: MemberId|
        uri_matches(s, StatefulLocalUri::Member { room_id: rid, member_id: mid })
}

/// Whether some decomposition reads the text as an endpoint URI.
pub open spec fn matches_endpoint(s: Seq<char>) -> bool {
    exists|rid: RoomId, mid: MemberId, eid: crate::ids::EndpointId|
        uri_matches(
            s,
            StatefulLocalUri::Endpoint { room_id: rid, member_id: mid, endpoint_id: eid },
        )
}


/// A parsed URI's variant excludes the other readings of its text: room,
/// member and endpoint decompositions differ in their slash count.
proof fn lemma_variant_facts(s: Seq<char>, u: StatefulLocalUri)
    requires
        uri_matches(s, u),
    ensures
        u is Room ==> matches_room(s) && !matches_member(s) && !matches_endpoint(s),
        u is Member ==> !matches_room(s) && matches_member(s) && !matches_endpoint(s),
        u is Endpoint ==> !matches_room(s) && !matches_member(s) && matches_endpoint(s),
{
    crate::local_uri::lemma_uri_depth(s, u);
    if matches_room(s) {
        let rid = choose|rid: RoomId| uri_matches(s, StatefulLocalUri::Room { room_id: rid });
        crate::local_uri::lemma_uri_depth(s, StatefulLocalUri::Room { room_id: rid });
    }
    if matches_member(s) {
        let (rid, mid) = choose|rid: RoomId, mid: MemberId|
            uri_matches(s, StatefulLocalUri::Member { room_id: rid, member_id: mid });
        crate::local_uri::lemma_uri_depth(
            s,
            StatefulLocalUri::Member { room_id: rid, member_id: mid },
        );
    }
    if matches_endpoint(s) {
        let (rid, mid, eid) = choose|rid: RoomId, mid: MemberId, eid: crate::ids::EndpointId|
            uri_matches(
                s,
                StatefulLocalUri::Endpoint { room_id: rid, member_id: mid, endpoint_id: eid },
            );
        crate::local_uri::lemma_uri_depth(
            s,
            StatefulLocalUri::Endpoint { room_id: rid, member_id: mid, endpoint_id: eid },
        );
    }
}

/// The spec an element is created from, matching the URI depth it may
/// stand at.
pub enum ElementSpec {
    /// A whole room.
    Room(RoomSpec),
    /// A member of a room.
    Member(MemberSpec),
    /// An endpoint of a member.
    Endpoint(EndpointSpec),
}

/// A `Create` or `Apply` request: the element URI and the spec to put
/// there.
pub struct CreateRequest {
    /// The element URI, as text.
    pub id: String,
    /// The spec of the element to create.
    pub spec: ElementSpec,
}

/// A batched request naming element URIs, as `Delete` and `Get` take it.
pub struct IdRequest {
    /// The element URIs, as text.
    pub ids: Vec<String>,
}

/// The reply to a mutating request: the sids of created members, or the
/// error that refused the request.
pub struct Response {
    /// One `(member, sid)` entry per member the request created.
    pub sid: Vec<(String, String)>,
    /// The error, when the request was refused.
    pub error: Option<ErrorResponse>,
}

/// The reply to a `Get`: one entry per addressed element, or the error.
pub struct GetResponse {
    /// The URI of each found element, with the room it lives in.
    pub elements: Vec<(String, RoomId)>,
    /// The error, when the request was refused.
    pub error: Option<ErrorResponse>,
}

/// The typed client of the Control API: every request arrives as one call
/// with plain values and is answered with plain values.
pub struct ControlApiClient {
    /// The service the requests go to.
    pub service: RoomService,
}

impl ControlApiClient {
    /// A client over the given service.
    pub fn new(service: RoomService) -> (r: Self)
        ensures
            r.service == service,
    {
        ControlApiClient { service }
    }

    /// Handles `Create`: the URI must be well formed and its depth must
    /// match the spec kind — a room spec at a room URI, a member spec at a
    /// member URI, an endpoint spec at an endpoint URI — and the addressed
    /// place must accept the element. Each refusal carries its code; a
    /// created member's sid is returned as `room/member/credentials`. The
    /// registry is untouched by every refusal.
    pub fn create(&mut self, req: &CreateRequest) -> (r: Response)
        ensures
            r.error is Some ==> r.sid@.len() == 0,
            r.error is Some ==> service_unchanged(old(self).service, final(self).service),
            ({
                let s = req.id@;
                !uri_wf(s) <==> (r.error matches Some(e) && e.error_code == parse_code_of(s))
            }),
            ({
                let s = req.id@;
                let rooms0 = old(self).service.room_repo.rooms@;
                uri_wf(s) && matches_room(s) ==> match req.spec {
                    ElementSpec::Room(sp) => {
                        &&& (r.error is None <==> crate::room_service::room_idx(rooms0, sp.id@)
                            == -1 && crate::member::loads_ok(sp.members@))
                        &&& (r.error is None ==> {
                            &&& final(self).service.room_repo.rooms@.len() == rooms0.len() + 1
                            &&& final(self).service.room_repo.rooms@.subrange(
                                0,
                                rooms0.len() as int,
                            ) == rooms0
                            &&& final(self).service.room_repo.rooms@.last().id@ == sp.id@
                            &&& r.sid@.len() == sp.members@.len()
                            &&& (forall|k: int| 0 <= k < r.sid@.len() ==> (
                            #[trigger] r.sid@[k]).0@ == sp.members@[k].0@ && r.sid@[k].1@
                                == sp.id@ + "/"@ + sp.members@[k].0@ + "/"@ + sp.members@[
                                k
                            ].1.credentials@)
                        })
                        &&& (r.error matches Some(e) ==> (crate::room_service::room_idx(
                            rooms0,
                            sp.id@,
                        ) >= 0 ==> e.error_code == ErrorCode::RoomAlreadyExists))
                    },
                    _ => r.error matches Some(e) && e.error_code
                        == ErrorCode::ElementIdForRoomButElementIsNot,
                }
            }),
            ({
                let s = req.id@;
                uri_wf(s) && matches_member(s) ==> match req.spec {
                    ElementSpec::Member(sp) => r.error is None ==> exists|rid: RoomId,
                    mid: MemberId| {
                        &&& uri_matches(
                            s,
                            StatefulLocalUri::Member { room_id: rid, member_id: mid },
                        )
                        &&& ({
                            let rooms0 = old(self).service.room_repo.rooms@;
                            let rooms1 = final(self).service.room_repo.rooms@;
                            let ri = crate::room_service::room_idx(rooms0, rid@);
                            &&& ri >= 0
                            &&& rooms1 == rooms0.update(ri, rooms1[ri])
                            &&& rooms1[ri].members.members@.len() == rooms0[
                                ri
                            ].members.members@.len() + 1
                            &&& rooms1[ri].members.members@.last().id@ == mid@
                            &&& rooms1[ri].members.members@.last().credentials@
                                == sp.credentials@
                            &&& r.sid@.len() == 1
                            &&& r.sid@[0].0@ == mid@
                            &&& r.sid@[0].1@ == rid@ + "/"@ + mid@ + "/"@ + sp.credentials@
                        })
                    },
                    _ => r.error matches Some(e) && e.error_code
                        == ErrorCode::ElementIdForMemberButElementIsNot,
                }
            }),
            ({
                let s = req.id@;
                uri_wf(s) && matches_endpoint(s) ==> match req.spec {
                    ElementSpec::Endpoint(_) => r.error is None ==> exists|rid: RoomId,
                    mid: MemberId,
                    eid: crate::ids::EndpointId| {
                        &&& uri_matches(
                            s,
                            StatefulLocalUri::Endpoint {
                                room_id: rid,
                                member_id: mid,
                                endpoint_id: eid,
                            },
                        )
                        &&& ({
                            let rooms0 = old(self).service.room_repo.rooms@;
                            let rooms1 = final(self).service.room_repo.rooms@;
                            let ri = crate::room_service::room_idx(rooms0, rid@);
                            &&& ri >= 0
                            &&& crate::member::member_idx(rooms0[ri].members.members@, mid@) >= 0
                            &&& rooms1 == rooms0.update(ri, rooms1[ri])
                        })
                    },
                    _ => r.error matches Some(e) && e.error_code
                        == ErrorCode::ElementIdForEndpointButElementIsNot,
                }
            }),
    {
        let uri = match parse_local_uri(req.id.as_str()) {
            Ok(u) => u,
            Err(e) => {
                proof {
                    let s = req.id@;
                    if s.len() == 0 {
                    } else if !starts_with(s, local_prefix()) {
                    } else if count_char(s.skip(8), '/') >= 3 {
                    } else {
                        // the parser refused, so a segment must be empty
                        assert(has_empty_segment(s.skip(8))) by {
                            if !has_empty_segment(s.skip(8)) {
                                assert(false);
                            }
                        }
                    }
                    assert(!uri_wf(s));
                }
                return Response {
                    sid: Vec::new(),
                    error: Some(ErrorResponse::from_parse_error(&e)),
                };
            },
        };
        proof {
            assert(uri_wf(req.id@));
            lemma_variant_facts(req.id@, uri);
        }
        match (&uri, &req.spec) {
            (StatefulLocalUri::Room { room_id: _ }, ElementSpec::Room(spec)) => {
                let ghost rooms0 = self.service.room_repo.rooms@;
                match self.service.create_room(spec) {
                    Ok(_) => {
                        proof {
                            assert(self.service.room_repo.rooms@.subrange(
                                0,
                                rooms0.len() as int,
                            ) =~= rooms0);
                        }
                        let mut sid: Vec<(String, String)> = Vec::new();
                        let mut i: usize = 0;
                        while i < spec.members.len()
                            invariant
                                0 <= i <= spec.members@.len(),
                                sid@.len() == i,
                                forall|k: int| 0 <= k < i ==> (#[trigger] sid@[k]).0@
                                    == spec.members@[k].0@ && sid@[k].1@ == spec.id@ + "/"@
                                    + spec.members@[k].0@ + "/"@ + spec.members@[
                                    k
                                ].1.credentials@,
                            decreases spec.members@.len() - i,
                        {
                            let entry = member_sid(
                                &spec.id,
                                &spec.members[i].0,
                                &spec.members[i].1.credentials,
                            );
                            sid.push((spec.members[i].0.0.clone(), entry));
                            i = i + 1;
                        }
                        Response { sid, error: None }
                    },
                    Err(e) => Response {
                        sid: Vec::new(),
                        error: Some(ErrorResponse::from_room_service_error(&e)),
                    },
                }
            },
            (StatefulLocalUri::Member { room_id, member_id }, ElementSpec::Member(spec)) => {
                match self.service.room_repo.find_room(&room_id) {
                    Some(ri) => {
                        let ghost rv = self.service.room_repo.rooms@;
                        let mut room = self.service.room_repo.rooms.remove(ri);
                        if room.members.sessions.len() != room.members.members.len() {
                            self.service.room_repo.rooms.insert(ri, room);
                            proof {
                                assert(self.service.room_repo.rooms@ =~= rv);
                            }
                            return Response {
                                sid: Vec::new(),
                                error: Some(ErrorResponse::new_empty(ErrorCode::UnknownError)),
                            };
                        }
                        let outcome = room.create_member(&member_id, spec.credentials.clone());
                        self.service.room_repo.rooms.insert(ri, room);
                        proof {
                            if outcome is Err {
                                assert(self.service.room_repo.rooms@ =~= rv);
                            } else {
                                assert(self.service.room_repo.rooms@ =~= rv.update(
                                    ri as int,
                                    self.service.room_repo.rooms@[ri as int],
                                ));
                            }
                        }
                        match outcome {
                            Ok(_) => {
                                let entry = member_sid(&room_id, &member_id, &spec.credentials);
                                let mut sid: Vec<(String, String)> = Vec::new();
                                sid.push((member_id.0.clone(), entry));
                                Response { sid, error: None }
                            },
                            Err(e) => Response {
                                sid: Vec::new(),
                                error: Some(ErrorResponse::from_room_error(&e)),
                            },
                        }
                    },
                    None => Response {
                        sid: Vec::new(),
                        error: Some(
                            ErrorResponse::new(ErrorCode::RoomNotFound, room_id.0.as_str()),
                        ),
                    },
                }
            },
            (
                StatefulLocalUri::Endpoint { room_id, member_id, endpoint_id },
                ElementSpec::Endpoint(spec),
            ) => {
                match self.service.room_repo.find_room(&room_id) {
                    Some(ri) => {
                        let ghost rv = self.service.room_repo.rooms@;
                        let mut room = self.service.room_repo.rooms.remove(ri);
                        if room.members.sessions.len() != room.members.members.len() {
                            self.service.room_repo.rooms.insert(ri, room);
                            proof {
                                assert(self.service.room_repo.rooms@ =~= rv);
                            }
                            return Response {
                                sid: Vec::new(),
                                error: Some(ErrorResponse::new_empty(ErrorCode::UnknownError)),
                            };
                        }
                        let outcome = room.create_endpoint(&member_id, &endpoint_id, spec);
                        self.service.room_repo.rooms.insert(ri, room);
                        proof {
                            if outcome is Err {
                                assert(self.service.room_repo.rooms@ =~= rv);
                            } else {
                                assert(self.service.room_repo.rooms@ =~= rv.update(
                                    ri as int,
                                    self.service.room_repo.rooms@[ri as int],
                                ));
                            }
                        }
                        match outcome {
                            Ok(_) => Response { sid: Vec::new(), error: None },
                            Err(e) => Response {
                                sid: Vec::new(),
                                error: Some(ErrorResponse::from_room_error(&e)),
                            },
                        }
                    },
                    None => Response {
                        sid: Vec::new(),
                        error: Some(
                            ErrorResponse::new(ErrorCode::RoomNotFound, room_id.0.as_str()),
                        ),
                    },
                }
            },
            (StatefulLocalUri::Room { .. }, _) => Response {
                sid: Vec::new(),
                error: Some(
                    ErrorResponse::new(
                        ErrorCode::ElementIdForRoomButElementIsNot,
                        req.id.as_str(),
                    ),
                ),
            },
            (StatefulLocalUri::Member { .. }, _) => Response {
                sid: Vec::new(),
                error: Some(
                    ErrorResponse::new(
                        ErrorCode::ElementIdForMemberButElementIsNot,
                        req.id.as_str(),
                    ),
                ),
            },
            (StatefulLocalUri::Endpoint { .. }, _) => Response {
                sid: Vec::new(),
                error: Some(
                    ErrorResponse::new(
                        ErrorCode::ElementIdForEndpointButElementIsNot,
                        req.id.as_str(),
                    ),
                ),
            },
        }
    }

    /// Handles `Apply` for rooms, as subtree replacement: the addressed
    /// room is closed, when live, and a room is started afresh from the
    /// given spec. Only a room URI with a room spec is accepted; a deeper
    /// URI is refused as an invalid element URI.
    pub fn apply<T: TurnAuthService>(&mut self, req: &CreateRequest, turn: &mut T) -> (r: Response)
        ensures
            r.sid@.len() == 0,
            ({
                let s = req.id@;
                !uri_wf(s) <==> (r.error matches Some(e) && e.error_code == parse_code_of(s))
            }),
            ({
                let s = req.id@;
                uri_wf(s) && !matches_room(s) ==> (r.error matches Some(e) && e.error_code
                    == ErrorCode::InvalidElementUri) && service_unchanged(
                    old(self).service,
                    final(self).service,
                )
            }),
            ({
                let s = req.id@;
                uri_wf(s) && matches_room(s) ==> match req.spec {
                    ElementSpec::Room(sp) => exists|rid: RoomId| {
                        &&& uri_matches(s, StatefulLocalUri::Room { room_id: rid })
                        &&& ({
                            let rooms0 = old(self).service.room_repo.rooms@;
                            let rooms1 = final(self).service.room_repo.rooms@;
                            let ri = crate::room_service::room_idx(rooms0, rid@);
                            let base = if ri >= 0 {
                                rooms0.remove(ri)
                            } else {
                                rooms0
                            };
                            &&& (r.error is None <==> crate::room_service::room_idx(base, sp.id@)
                                == -1 && crate::member::loads_ok(sp.members@))
                            &&& (r.error is None ==> rooms1.len() == base.len() + 1
                                && rooms1.subrange(0, base.len() as int) == base
                                && rooms1.last().id@ == sp.id@)
                            &&& (r.error is Some ==> rooms1 == base)
                        })
                    },
                    _ => (r.error matches Some(e) && e.error_code
                        == ErrorCode::ElementIdForRoomButElementIsNot) && service_unchanged(
                        old(self).service,
                        final(self).service,
                    ),
                }
            }),
    {
        let uri = match parse_local_uri(req.id.as_str()) {
            Ok(u) => u,
            Err(e) => {
                proof {
                    assert(!uri_wf(req.id@));
                }
                return Response {
                    sid: Vec::new(),
                    error: Some(ErrorResponse::from_parse_error(&e)),
                };
            },
        };
        proof {
            assert(uri_wf(req.id@));
            lemma_variant_facts(req.id@, uri);
        }
        match (&uri, &req.spec) {
            (StatefulLocalUri::Room { room_id }, ElementSpec::Room(spec)) => {
                let ghost rid = *room_id;
                let ghost rooms0 = self.service.room_repo.rooms@;
                let (_conns, freed) = self.service.close_room(room_id);
                let _ = turn.delete_users(freed);
                let ghost base = self.service.room_repo.rooms@;
                let outcome = self.service.create_room(spec);
                proof {
                    assert(uri_matches(req.id@, StatefulLocalUri::Room { room_id: rid }));
                    crate::room_service::lemma_room_idx(rooms0, rid@);
                    let ri = crate::room_service::room_idx(rooms0, rid@);
                    assert(base == if ri >= 0 {
                        rooms0.remove(ri)
                    } else {
                        rooms0
                    });
                    assert(outcome is Ok <==> crate::room_service::room_idx(base, spec.id@) == -1
                        && crate::member::loads_ok(spec.members@));
                    if outcome is Ok {
                        assert(self.service.room_repo.rooms@.len() == base.len() + 1);
                        assert(self.service.room_repo.rooms@.subrange(0, base.len() as int)
                            =~= base);
                        assert(self.service.room_repo.rooms@.last().id@ == spec.id@);
                    } else {
                        assert(self.service.room_repo.rooms@ == base);
                    }
                }
                match outcome {
                    Ok(_) => Response { sid: Vec::new(), error: None },
                    Err(e) => Response {
                        sid: Vec::new(),
                        error: Some(ErrorResponse::from_room_service_error(&e)),
                    },
                }
            },
            (StatefulLocalUri::Room { .. }, _) => Response {
                sid: Vec::new(),
                error: Some(
                    ErrorResponse::new(
                        ErrorCode::ElementIdForRoomButElementIsNot,
                        req.id.as_str(),
                    ),
                ),
            },
            _ => Response {
                sid: Vec::new(),
                error: Some(ErrorResponse::new(ErrorCode::InvalidElementUri, req.id.as_str())),
            },
        }
    }

    /// Handles `Delete`: every URI must be well formed and all must point
    /// into one room; the batch is validated before any room is touched —
    /// a refusal, parse or validation, leaves the registry untouched.
    pub fn delete<T: TurnAuthService>(&mut self, req: &IdRequest, turn: &mut T) -> (r: Response)
        ensures
            r.sid@.len() == 0,
            r.error is Some ==> service_unchanged(old(self).service, final(self).service),
            (r.error matches Some(e) && code_of(e.error_code) >= 1200) <==> (exists|k: int|
                0 <= k < req.ids@.len() && !uri_wf((#[trigger] req.ids@[k])@)),
            r.error is None ==> req.ids@.len() > 0 && (forall|k: int|
                0 <= k < req.ids@.len() ==> uri_wf((#[trigger] req.ids@[k])@)),
            r.error is None ==> exists|u0: StatefulLocalUri| {
                &&& uri_matches(req.ids@[0]@, u0)
                &&& ({
                    let rooms0 = old(self).service.room_repo.rooms@;
                    let rooms1 = final(self).service.room_repo.rooms@;
                    let ri = crate::room_service::room_idx(rooms0, u0.spec_room_id());
                    if ri == -1 {
                        rooms1 == rooms0
                    } else if exists|k: int|
                        0 <= k < req.ids@.len() && matches_room((#[trigger] req.ids@[k])@) {
                        rooms1 == rooms0.remove(ri)
                    } else {
                        &&& rooms1.len() == rooms0.len()
                        &&& rooms1 == rooms0.update(ri, rooms1[ri])
                        &&& rooms1[ri].id == rooms0[ri].id
                    }
                })
            },
    {
        let mut elements = DeleteElements::new();
        let mut i: usize = 0;
        while i < req.ids.len()
            invariant
                0 <= i <= req.ids@.len(),
                elements.uris@.len() == i,
                forall|k: int| 0 <= k < i ==> uri_wf((#[trigger] req.ids@[k])@),
                forall|k: int| 0 <= k < i ==> uri_matches(
                    (#[trigger] req.ids@[k])@,
                    elements.uris@[k],
                ),
            decreases req.ids@.len() - i,
        {
            match parse_local_uri(req.ids[i].as_str()) {
                Ok(u) => elements.add_uri(u),
                Err(e) => {
                    proof {
                        assert(!uri_wf(req.ids@[i as int]@));
                    }
                    return Response {
                        sid: Vec::new(),
                        error: Some(ErrorResponse::from_parse_error(&e)),
                    };
                },
            }
            i = i + 1;
        }
        let ghost uris = elements.uris@;
        match elements.validate() {
            Ok(validated) => {
                proof {
                    assert(uri_matches(req.ids@[0]@, validated.uris@[0]));
                    if crate::room_service::room_idx(
                        self.service.room_repo.rooms@,
                        validated.uris@[0].spec_room_id(),
                    ) >= 0 {
                        if exists|k: int|
                            0 <= k < validated.uris@.len() && (#[trigger] validated.uris@[k])
                                is Room {
                            let w = choose|k: int|
                                0 <= k < validated.uris@.len() && (#[trigger] validated.uris@[k])
                                    is Room;
                            lemma_variant_facts(req.ids@[w]@, validated.uris@[w]);
                        } else {
                            assert forall|k: int|
                                0 <= k < req.ids@.len() implies !matches_room(
                                (#[trigger] req.ids@[k])@,
                            ) by {
                                lemma_variant_facts(req.ids@[k]@, validated.uris@[k]);
                            }
                        }
                    }
                }
                let ghost u0 = validated.uris@[0];
                let (_events, _conns, freed) = self.service.delete_elements(validated);
                let _ = turn.delete_users(freed);
                proof {
                    crate::room_service::lemma_room_idx(
                        old(self).service.room_repo.rooms@,
                        u0.spec_room_id(),
                    );
                }
                Response { sid: Vec::new(), error: None }
            },
            Err(e) => Response {
                sid: Vec::new(),
                error: Some(ErrorResponse::from_room_service_error(&e)),
            },
        }
    }

    /// Handles `Get`: every URI must be well formed and address a live
    /// room; the reply names each element with the room it lives in, in
    /// request order. The registry is never touched.
    pub fn get(&self, req: &IdRequest) -> (r: GetResponse)
        ensures
            r.error is Some ==> r.elements@.len() == 0,
            (r.error matches Some(e) && code_of(e.error_code) >= 1200) ==> (exists|k: int|
                0 <= k < req.ids@.len() && !uri_wf((#[trigger] req.ids@[k])@)),
            r.error is None ==> (forall|k: int| 0 <= k < req.ids@.len() ==> uri_wf(
                (#[trigger] req.ids@[k])@,
            )),
            r.error matches Some(e) && e.error_code == ErrorCode::RoomNotFound ==> exists|
                k: int,
                u: StatefulLocalUri,
            |
                #![trigger uri_matches(req.ids@[k]@, u)]
                0 <= k < req.ids@.len() && uri_matches(req.ids@[k]@, u)
                    && crate::room_service::room_idx(
                    self.service.room_repo.rooms@,
                    u.spec_room_id(),
                ) == -1,
            r.error is None ==> r.elements@.len() == req.ids@.len(),
            r.error is None ==> forall|k: int| 0 <= k < req.ids@.len() ==> (
            #[trigger] r.elements@[k]).0@ == req.ids@[k]@,
            r.error is None ==> forall|k: int| 0 <= k < req.ids@.len()
                ==> crate::room_service::room_idx(
                self.service.room_repo.rooms@,
                (#[trigger] r.elements@[k]).1@,
            ) >= 0,
    {
        let mut elements: Vec<(String, RoomId)> = Vec::new();
        let ghost mut ws: Seq<StatefulLocalUri> = Seq::empty();
        let mut i: usize = 0;
        while i < req.ids.len()
            invariant
                0 <= i <= req.ids@.len(),
                elements@.len() == i,
                ws.len() == i,
                forall|k: int| 0 <= k < i ==> uri_wf((#[trigger] req.ids@[k])@),
                forall|k: int| 0 <= k < i ==> (#[trigger] elements@[k]).0@ == req.ids@[k]@,
                forall|k: int| 0 <= k < i ==> uri_matches(req.ids@[k]@, #[trigger] ws[k]),
                forall|k: int| 0 <= k < i ==> (#[trigger] elements@[k]).1@ == ws[
                    k
                ].spec_room_id(),
                forall|k: int| 0 <= k < i ==> crate::room_service::room_idx(
                    self.service.room_repo.rooms@,
                    (#[trigger] ws[k]).spec_room_id(),
                ) >= 0,
            decreases req.ids@.len() - i,
        {
            let uri = match parse_local_uri(req.ids[i].as_str()) {
                Ok(u) => u,
                Err(e) => {
                    proof {
                        assert(!uri_wf(req.ids@[i as int]@));
                    }
                    return GetResponse {
                        elements: Vec::new(),
                        error: Some(ErrorResponse::from_parse_error(&e)),
                    };
                },
            };
            let room_id = uri.room_id();
            match self.service.room_repo.find_room(room_id) {
                Some(_) => {
                    elements.push((req.ids[i].clone(), room_id.clone_id()));
                    proof {
                        ws = ws.push(uri);
                        assert(uri_matches(req.ids@[i as int]@, uri));
                        assert((elements@[i as int]).0@ == req.ids@[i as int]@);
                        assert(elements@[i as int].1@ == uri.spec_room_id());
                    }
                },
                None => {
                    proof {
                        assert(uri_matches(req.ids@[i as int]@, uri));
                    }
                    return GetResponse {
                        elements: Vec::new(),
                        error: Some(
                            ErrorResponse::new(ErrorCode::RoomNotFound, req.ids[i].as_str()),
                        ),
                    };
                },
            }
            i = i + 1;
        }
        GetResponse { elements, error: None }
    }
}

/// The sid a created member connects with: `room/member/credentials`.
pub fn member_sid(room_id: &RoomId, member_id: &MemberId, credentials: &String) -> (r: String)
    ensures
        r@ == room_id@ + "/"@ + member_id@ + "/"@ + credentials@,
{
    let mut out = room_id.0.clone();
    out.append("/");
    out.append(member_id.0.as_str());
    out.append("/");
    out.append(credentials.as_str());
    out
}

} // verus!
