//! Errors of the signalling core and the Control API error responses.

use vstd::prelude::*;

use crate::ids::{EndpointId, MemberId, PeerId, RoomId, TrackId};

verus! {

/// Control API error codes, grouped by kind:
/// `1000` unknown, `1001..=1005` not found, `1100..=1107` spec errors,
/// `1200..=1203` parse errors, `1300..=1302` conflicts.
#[derive(Clone, Copy, Debug, PartialEq, Eq, Structural)]
pub enum ErrorCode {
    /// Unknown server error (`1000`).
    UnknownError,
    /// Publish endpoint not found (`1001`).
    PublishEndpointNotFound,
    /// Play endpoint not found (`1002`).
    PlayEndpointNotFound,
    /// Member not found (`1003`).
    MemberNotFound,
    /// Room not found (`1004`).
    RoomNotFound,
    /// Endpoint not found (`1005`).
    EndpointNotFound,
    /// A `Room` element was expected in the spec (`1100`).
    NotRoomInSpec,
    /// A `Member` element was expected in the spec (`1101`).
    NotMemberInSpec,
    /// Invalid source URI in a play endpoint spec (`1102`).
    InvalidSrcUri,
    /// URI addresses a room but the element spec is not a room (`1103`).
    ElementIdForRoomButElementIsNot,
    /// URI addresses a member but the element spec is not a member (`1104`).
    ElementIdForMemberButElementIsNot,
    /// URI addresses an endpoint but the element spec is not one (`1105`).
    ElementIdForEndpointButElementIsNot,
    /// Invalid element URI (`1106`).
    InvalidElementUri,
    /// A non-source URI was provided where a source was expected (`1107`).
    NotSourceUri,
    /// URI lacks the `local://` prefix (`1200`).
    ElementIdIsNotLocal,
    /// URI has too many segments (`1201`).
    ElementIdIsTooLong,
    /// URI has empty segments (`1202`).
    MissingFieldsInSrcUri,
    /// Empty URI (`1203`).
    EmptyElementId,
    /// Member already exists (`1300`).
    MemberAlreadyExists,
    /// Endpoint already exists (`1301`).
    EndpointAlreadyExists,
    /// Room already exists (`1302`).
    RoomAlreadyExists,
}

/// The numeric code of each [`ErrorCode`].
pub open spec fn code_of(e: ErrorCode) -> u32 {
    match e {
        ErrorCode::UnknownError => 1000,
        ErrorCode::PublishEndpointNotFound => 1001,
        ErrorCode::PlayEndpointNotFound => 1002,
        ErrorCode::MemberNotFound => 1003,
        ErrorCode::RoomNotFound => 1004,
        ErrorCode::EndpointNotFound => 1005,
        ErrorCode::NotRoomInSpec => 1100,
        ErrorCode::NotMemberInSpec => 1101,
        ErrorCode::InvalidSrcUri => 1102,
        ErrorCode::ElementIdForRoomButElementIsNot => 1103,
        ErrorCode::ElementIdForMemberButElementIsNot => 1104,
        ErrorCode::ElementIdForEndpointButElementIsNot => 1105,
        ErrorCode::InvalidElementUri => 1106,
        ErrorCode::NotSourceUri => 1107,
        ErrorCode::ElementIdIsNotLocal => 1200,
        ErrorCode::ElementIdIsTooLong => 1201,
        ErrorCode::MissingFieldsInSrcUri => 1202,
        ErrorCode::EmptyElementId => 1203,
        ErrorCode::MemberAlreadyExists => 1300,
        ErrorCode::EndpointAlreadyExists => 1301,
        ErrorCode::RoomAlreadyExists => 1302,
    }
}

impl ErrorCode {
    /// Returns the numeric code of this error.
    pub fn code(&self) -> (c: u32)
        ensures
            c == code_of(*self),
    {
        match self {
            ErrorCode::UnknownError => 1000,
            ErrorCode::PublishEndpointNotFound => 1001,
            ErrorCode::PlayEndpointNotFound => 1002,
            ErrorCode::MemberNotFound => 1003,
            ErrorCode::RoomNotFound => 1004,
            ErrorCode::EndpointNotFound => 1005,
            ErrorCode::NotRoomInSpec => 1100,
            ErrorCode::NotMemberInSpec => 1101,
            ErrorCode::InvalidSrcUri => 1102,
            ErrorCode::ElementIdForRoomButElementIsNot => 1103,
            ErrorCode::ElementIdForMemberButElementIsNot => 1104,
            ErrorCode::ElementIdForEndpointButElementIsNot => 1105,
            ErrorCode::InvalidElementUri => 1106,
            ErrorCode::NotSourceUri => 1107,
            ErrorCode::ElementIdIsNotLocal => 1200,
            ErrorCode::ElementIdIsTooLong => 1201,
            ErrorCode::MissingFieldsInSrcUri => 1202,
            ErrorCode::EmptyElementId => 1203,
            ErrorCode::MemberAlreadyExists => 1300,
            ErrorCode::EndpointAlreadyExists => 1301,
            ErrorCode::RoomAlreadyExists => 1302,
        }
    }
}

/// A Control API error response: the error code, the URI of the element the
/// error is about (may be empty), and, for unclassified errors only, the
/// text of the unexpected error.
#[derive(Clone, Debug, PartialEq, Eq)]
pub struct ErrorResponse {
    /// The error code returned to the caller.
    pub error_code: ErrorCode,
    /// URI of the element the error happened on; empty when unknown.
    pub element_id: String,
    /// Text of an unexpected error; `None` for every classified error.
    pub unknown_error: Option<String>,
}

impl ErrorResponse {
    /// A classified error about the element with the given URI.
    pub fn new(error_code: ErrorCode, element_id: &str) -> (r: Self)
        ensures
            r.error_code == error_code,
            r.element_id@ == element_id@,
            r.unknown_error is None,
    {
        ErrorResponse {
            error_code,
            element_id: element_id.to_owned(),
            unknown_error: None,
        }
    }

    /// A classified error that names no element.
    pub fn new_empty(error_code: ErrorCode) -> (r: Self)
        ensures
            r.error_code == error_code,
            r.element_id@ == Seq::<char>::empty(),
            r.unknown_error is None,
    {
        ErrorResponse {
            error_code,
            element_id: String::new(),
            unknown_error: None,
        }
    }

    /// The response for an unexpected error, carrying its text.
    pub fn unknown(unknown_error: &str) -> (r: Self)
        ensures
            r.error_code == ErrorCode::UnknownError,
            r.element_id@ == Seq::<char>::empty(),
            r.unknown_error matches Some(e) && e@ == unknown_error@,
    {
        ErrorResponse {
            error_code: ErrorCode::UnknownError,
            element_id: String::new(),
            unknown_error: Some(unknown_error.to_owned()),
        }
    }

    /// The numeric code of this response.
    pub fn code(&self) -> (c: u32)
        ensures
            c == code_of(self.error_code),
    {
        self.error_code.code()
    }
}

/// Why a spec element could not be converted to the requested kind.
#[derive(Clone, Copy, Debug, PartialEq, Eq, Structural)]
pub enum TryFromElementError {
    /// The element is not a `Room`.
    NotRoom,
    /// The element is not a `Member`.
    NotMember,
}

/// Errors of loading the `Member` graph from a room spec.
#[derive(Clone, Debug, PartialEq, Eq)]
pub enum MembersLoadError {
    /// A spec element had the wrong kind; carries the URI it stood at.
    TryFromError(TryFromElementError, String),
    /// A member named by the spec does not exist.
    MemberNotFound(MemberId),
    /// A publish endpoint named by a play endpoint's source does not exist.
    PublishEndpointNotFound(EndpointId),
    /// A play endpoint named by the spec does not exist.
    PlayEndpointNotFound(EndpointId),
}

/// Failure of a member session authorization.
#[derive(Clone, Copy, Debug, PartialEq, Eq, Structural)]
pub enum AuthorizationError {
    /// No member with the given ID exists in the room.
    MemberNotExists,
    /// The member exists but the credentials do not match.
    InvalidCredentials,
}

/// Why an RPC connection went away.
#[derive(Clone, Copy, Debug, PartialEq, Eq, Structural)]
pub enum ClosedReason {
    /// The client closed the connection on purpose; the session ends now.
    Closed,
    /// The connection was lost; the member may reconnect within the grace
    /// period.
    Lost,
}

/// Failure of the TURN credential service.
#[derive(Clone, Copy, Debug, PartialEq, Eq, Structural)]
pub enum TurnServiceErr {
    /// The service could not be reached or refused the request.
    Unavailable,
}

/// Errors of the `Peer` state machine.
#[derive(Clone, Debug, PartialEq, Eq)]
pub enum PeerError {
    /// A peer was asked for an operation its current state refuses;
    /// carries the peer and the names of the expected and actual states.
    WrongState(PeerId, &'static str, &'static str),
    /// A track is sent without a mid; carries the track.
    MidsMismatch(TrackId),
}

/// Errors of a `Room`'s handlers.
#[derive(Clone, Debug, PartialEq, Eq)]
pub enum RoomError {
    /// No peer with the given ID exists in the room.
    PeerNotFound(PeerId),
    /// A peer state machine error.
    PeerError(PeerError),
    /// The member's peer has no TURN credentials attached.
    NoTurnCredentials(MemberId),
    /// The member has no live RPC connection.
    ConnectionNotExists(MemberId),
    /// The transport failed to deliver an event to the member.
    UnableToSendEvent(MemberId),
    /// The TURN service failed while provisioning credentials.
    TurnServiceErr(TurnServiceErr),
    /// No member with the given ID exists in the room.
    MemberNotFound(MemberId),
    /// A member with the given ID already exists in the room.
    MemberAlreadyExists(MemberId),
    /// No endpoint with the given ID exists on the member.
    EndpointNotFound(EndpointId),
    /// An endpoint with the given ID already exists on the member.
    EndpointAlreadyExists(EndpointId),
    /// The member graph of a spec could not be loaded.
    MembersLoadError(MembersLoadError),
}

/// Errors of the `RoomService` Control API facade.
#[derive(Clone, Debug, PartialEq, Eq)]
pub enum RoomServiceError {
    /// No room with the given ID exists; carries the room URI.
    RoomNotFound(String),
    /// A room with the given ID already exists; carries the room URI.
    RoomAlreadyExists(String),
    /// An error of the addressed room.
    RoomError(RoomError),
    /// A batch request named no URIs.
    EmptyUrisList,
    /// A batch delete named URIs of two different rooms.
    NotSameRoomIds(RoomId, RoomId),
}

/// Errors of parsing a `local://` element URI.
#[derive(Clone, Debug, PartialEq, Eq)]
pub enum LocalUriParseError {
    /// The URI does not start with `local://`; carries the URI.
    NotLocal(String),
    /// The URI has more than three segments; carries the URI.
    TooManyFields(String),
    /// The URI has an empty segment; carries the URI.
    MissingFields(String),
    /// The URI is empty.
    Empty,
}

impl ErrorResponse {
    /// The response for a URI parse error, as the Control API reports it:
    /// each parse failure maps to its own code and carries the bad URI.
    pub fn from_parse_error(err: &LocalUriParseError) -> (r: Self)
        ensures
            r.error_code == (match err {
                LocalUriParseError::NotLocal(_) => ErrorCode::ElementIdIsNotLocal,
                LocalUriParseError::TooManyFields(_) => ErrorCode::ElementIdIsTooLong,
                LocalUriParseError::MissingFields(_) => ErrorCode::MissingFieldsInSrcUri,
                LocalUriParseError::Empty => ErrorCode::EmptyElementId,
            }),
            r.unknown_error is None,
            match err {
                LocalUriParseError::NotLocal(t) => r.element_id@ == t@,
                LocalUriParseError::TooManyFields(t) => r.element_id@ == t@,
                LocalUriParseError::MissingFields(t) => r.element_id@ == t@,
                LocalUriParseError::Empty => r.element_id@ == Seq::<char>::empty(),
            },
    {
        match err {
            LocalUriParseError::NotLocal(text) => {
                Self::new(ErrorCode::ElementIdIsNotLocal, text.as_str())
            },
            LocalUriParseError::TooManyFields(text) => {
                Self::new(ErrorCode::ElementIdIsTooLong, text.as_str())
            },
            LocalUriParseError::MissingFields(text) => {
                Self::new(ErrorCode::MissingFieldsInSrcUri, text.as_str())
            },
            LocalUriParseError::Empty => Self::new_empty(ErrorCode::EmptyElementId),
        }
    }

    /// The response for a members-load error: each variant maps to the
    /// matching not-found or wrong-kind code of the element it names.
    pub fn from_members_load_error(err: &MembersLoadError) -> (r: Self)
        ensures
            code_of(r.error_code) < 1200 || code_of(r.error_code) >= 1300,
            r.error_code == (match err {
                MembersLoadError::TryFromError(TryFromElementError::NotMember, _) =>
                    ErrorCode::NotMemberInSpec,
                MembersLoadError::TryFromError(TryFromElementError::NotRoom, _) =>
                    ErrorCode::NotRoomInSpec,
                MembersLoadError::MemberNotFound(_) => ErrorCode::MemberNotFound,
                MembersLoadError::PublishEndpointNotFound(_) =>
                    ErrorCode::PublishEndpointNotFound,
                MembersLoadError::PlayEndpointNotFound(_) =>
                    ErrorCode::PlayEndpointNotFound,
            }),
            r.unknown_error is None,
    {
        match err {
            MembersLoadError::TryFromError(e, id) => match e {
                TryFromElementError::NotMember => {
                    Self::new(ErrorCode::NotMemberInSpec, id.as_str())
                },
                TryFromElementError::NotRoom => {
                    Self::new(ErrorCode::NotRoomInSpec, id.as_str())
                },
            },
            MembersLoadError::MemberNotFound(id) => {
                Self::new(ErrorCode::MemberNotFound, id.0.as_str())
            },
            MembersLoadError::PublishEndpointNotFound(id) => {
                Self::new(ErrorCode::PublishEndpointNotFound, id.0.as_str())
            },
            MembersLoadError::PlayEndpointNotFound(id) => {
                Self::new(ErrorCode::PlayEndpointNotFound, id.0.as_str())
            },
        }
    }

    /// The response for a room service error: room lookups map to their
    /// codes, room errors map through the room error table, and the rest is
    /// reported as unknown.
    pub fn from_room_service_error(err: &RoomServiceError) -> (r: Self)
        ensures
            code_of(r.error_code) < 1200 || code_of(r.error_code) >= 1300,
            match err {
                RoomServiceError::RoomNotFound(id) =>
                    r.error_code == ErrorCode::RoomNotFound && r.element_id@ == id@,
                RoomServiceError::RoomAlreadyExists(id) =>
                    r.error_code == ErrorCode::RoomAlreadyExists && r.element_id@ == id@,
                RoomServiceError::RoomError(_) => true,
                _ => r.error_code == ErrorCode::UnknownError,
            },
    {
        match err {
            RoomServiceError::RoomNotFound(id) => {
                Self::new(ErrorCode::RoomNotFound, id.as_str())
            },
            RoomServiceError::RoomAlreadyExists(id) => {
                Self::new(ErrorCode::RoomAlreadyExists, id.as_str())
            },
            RoomServiceError::RoomError(e) => Self::from_room_error(e),
            RoomServiceError::EmptyUrisList => Self::unknown("empty URIs list"),
            RoomServiceError::NotSameRoomIds(_, _) => {
                Self::unknown("not the same room IDs in the elements list")
            },
        }
    }

    /// The response for a room error: element lookups and conflicts map to
    /// their codes; everything else is reported as unknown.
    pub fn from_room_error(err: &RoomError) -> (r: Self)
        ensures
            code_of(r.error_code) < 1200 || code_of(r.error_code) >= 1300,
            match err {
                RoomError::MemberNotFound(id) =>
                    r.error_code == ErrorCode::MemberNotFound && r.element_id@ == id@,
                RoomError::MemberAlreadyExists(id) =>
                    r.error_code == ErrorCode::MemberAlreadyExists && r.element_id@ == id@,
                RoomError::EndpointNotFound(id) =>
                    r.error_code == ErrorCode::EndpointNotFound && r.element_id@ == id@,
                RoomError::EndpointAlreadyExists(id) =>
                    r.error_code == ErrorCode::EndpointAlreadyExists && r.element_id@ == id@,
                RoomError::MembersLoadError(_) => true,
                _ => r.error_code == ErrorCode::UnknownError,
            },
    {
        match err {
            RoomError::MemberNotFound(id) => {
                Self::new(ErrorCode::MemberNotFound, id.0.as_str())
            },
            RoomError::MemberAlreadyExists(id) => {
                Self::new(ErrorCode::MemberAlreadyExists, id.0.as_str())
            },
            RoomError::EndpointNotFound(id) => {
                Self::new(ErrorCode::EndpointNotFound, id.0.as_str())
            },
            RoomError::EndpointAlreadyExists(id) => {
                Self::new(ErrorCode::EndpointAlreadyExists, id.0.as_str())
            },
            RoomError::MembersLoadError(e) => Self::from_members_load_error(e),
            _ => Self::unknown("internal room error"),
        }
    }
}

} // verus!
