//! The RPC session registry of a room: authorization, connection
//! establishment, the reconnect grace period, and event dispatch.
//!
//! The manager owns no transport. A live connection is an opaque handle the
//! transport issued; timers and sends are returned to the caller as
//! outcomes, and the transport reports back by calling the next operation.

use vstd::prelude::*;
use vstd::string::StrSliceExecFns;

use crate::errors::{AuthorizationError, ClosedReason, RoomError};
use crate::ice::IceUser;
use crate::ids::{MemberId, RoomId};
use crate::member::{lemma_member_idx, member_idx, Member};

verus! {

/// An opaque handle to a live client transport; the transport issues it.
#[derive(Clone, Copy, Debug, PartialEq, Eq, Hash, Structural)]
pub struct RpcConnection(pub u64);

/// The session state of one member. Per member there is exactly one of: no
/// connection, a connection, or a connection whose loss started the
/// reconnect grace period.
#[derive(Clone, Copy, Debug, PartialEq, Eq, Structural)]
pub enum SessionState {
    /// No live connection.
    Disconnected,
    /// A live connection, in good standing.
    Connected(RpcConnection),
    /// A connection that was lost; unless the member reconnects before the
    /// grace timer fires, the session ends.
    Grace(RpcConnection),
}

/// What the room must do after a connection was established.
#[derive(Clone, Copy, Debug, PartialEq, Eq, Structural)]
pub enum ConnectOutcome {
    /// A prior connection stood: close it; when a grace timer ran for it,
    /// cancel the timer. The session goes on.
    ReplacedOld(RpcConnection),
    /// The member had no session: evaluate its endpoint edges now.
    NewSession,
}

/// What the room must do after a connection was reported closed.
#[derive(Clone, Debug, PartialEq, Eq)]
pub enum ClosedOutcome {
    /// The session ended; release the member's TURN credential, when it
    /// held one.
    Removed(Option<IceUser>),
    /// The connection was lost: run a grace timer for this many
    /// milliseconds and, unless it is cancelled by a reconnect, report the
    /// connection closed.
    GraceInstalled(u64),
    /// The member had no live connection; nothing to do.
    NoSession,
}

/// The TURN credentials held by the first `n` members, in order.
pub open spec fn members_ice(s: Seq<Member>, n: int) -> Seq<IceUser>
    decreases n,
{
    if n <= 0 {
        Seq::empty()
    } else {
        let prev = members_ice(s, n - 1);
        if s[n - 1].ice_user is Some {
            prev.push(s[n - 1].ice_user->0)
        } else {
            prev
        }
    }
}

/// The RPC session registry of one room.
pub struct MembersManager {
    /// The room the members belong to.
    pub room_id: RoomId,
    /// The members, in load order.
    pub members: Vec<Member>,
    /// Each member's session state, index-aligned with `members`.
    pub sessions: Vec<SessionState>,
    /// How long a lost connection may reconnect, in milliseconds.
    pub reconnect_timeout_ms: u64,
}

impl MembersManager {
    /// The registry is well formed: one session state per member.
    pub open spec fn wf(&self) -> bool {
        self.sessions@.len() == self.members@.len()
    }

    /// A registry over the given members: nobody is connected yet.
    #[verifier::loop_isolation(false)]
    pub fn new(room_id: RoomId, members: Vec<Member>, reconnect_timeout_ms: u64) -> (r: Self)
        ensures
            r.wf(),
            r.room_id == room_id,
            r.members == members,
            r.reconnect_timeout_ms == reconnect_timeout_ms,
            forall|i: int| 0 <= i < r.sessions@.len() ==> r.sessions@[i] is Disconnected,
    {
        let mut sessions: Vec<SessionState> = Vec::new();
        let mut i: usize = 0;
        while i < members.len()
            invariant
                0 <= i <= members@.len(),
                sessions@.len() == i,
                forall|j: int| 0 <= j < i ==> sessions@[j] is Disconnected,
            decreases members@.len() - i,
        {
            sessions.push(SessionState::Disconnected);
            i = i + 1;
        }
        MembersManager { room_id, members, sessions, reconnect_timeout_ms }
    }

    /// Returns the index of the member with the given ID, if one exists.
    #[verifier::loop_isolation(false)]
    pub fn find_member(&self, id: &MemberId) -> (r: Option<usize>)
        ensures
            match r {
                Some(i) => i as int == member_idx(self.members@, id@) && i < self.members@.len()
                    && self.members@[i as int].id@ == id@,
                None => member_idx(self.members@, id@) == -1 && forall|j: int|
                    0 <= j < self.members@.len() ==> self.members@[j].id@ != id@,
            },
    {
        proof {
            lemma_member_idx(self.members@, id@);
        }
        let mut i: usize = 0;
        while i < self.members.len()
            invariant
                0 <= i <= self.members@.len(),
                forall|j: int| 0 <= j < i ==> self.members@[j].id@ != id@,
            decreases self.members@.len() - i,
        {
            if self.members[i].id.eq_id(id) {
                return Some(i);
            }
            i = i + 1;
        }
        None
    }

    /// Authorizes a session: the member must exist and the credentials
    /// must match the member's, character for character.
    pub fn authorize(&self, member_id: &MemberId, credentials: &String) -> (r: Result<
        (),
        AuthorizationError,
    >)
        ensures
            ({
                let mi = member_idx(self.members@, member_id@);
                match r {
                    Ok(_) => mi >= 0 && self.members@[mi].credentials@ == credentials@,
                    Err(AuthorizationError::MemberNotExists) => mi == -1,
                    Err(AuthorizationError::InvalidCredentials) => mi >= 0
                        && self.members@[mi].credentials@ != credentials@,
                }
            }),
    {
        match self.find_member(member_id) {
            Some(i) => {
                // the comparison walks both strings to the end either way,
                // so a mismatch position is not reported faster
                let a = self.members[i].credentials.as_str();
                let b = credentials.as_str();
                let an = a.unicode_len();
                let bn = b.unicode_len();
                if an != bn {
                    return Err(AuthorizationError::InvalidCredentials);
                }
                let mut same = true;
                let mut k: usize = 0;
                while k < an
                    invariant
                        0 <= k <= an,
                        an as nat == a@.len(),
                        an as nat == b@.len(),
                        a@ == self.members@[i as int].credentials@,
                        b@ == credentials@,
                        same == (forall|j: int| 0 <= j < k ==> a@[j] == b@[j]),
                    decreases an - k,
                {
                    let ghost same0 = same;
                    let ca = a.get_char(k);
                    let cb = b.get_char(k);
                    same = if ca == cb {
                        same
                    } else {
                        false
                    };
                    proof {
                        if same {
                            assert forall|j: int| 0 <= j < k + 1 implies a@[j] == b@[j] by {
                                if j < k as int {
                                    assert(same0);
                                }
                            }
                        }
                    }
                    k = k + 1;
                }
                if same {
                    proof {
                        assert(a@ =~= b@);
                    }
                    Ok(())
                } else {
                    proof {
                        let j = choose|j: int| 0 <= j < a@.len() && a@[j] != b@[j];
                        assert(a@[j] != b@[j]);
                    }
                    Err(AuthorizationError::InvalidCredentials)
                }
            },
            None => Err(AuthorizationError::MemberNotExists),
        }
    }

    /// Whether the member has a connection in good standing (one whose
    /// grace period is not running).
    pub fn member_has_connection(&self, member_id: &MemberId) -> (r: bool)
        requires
            self.wf(),
        ensures
            ({
                let mi = member_idx(self.members@, member_id@);
                r == (mi >= 0 && self.sessions@[mi] is Connected)
            }),
    {
        match self.find_member(member_id) {
            Some(i) => {
                match self.sessions[i] {
                    SessionState::Connected(_) => true,
                    _ => false,
                }
            },
            None => false,
        }
    }

    /// Registers a fresh connection of a member.
    ///
    /// A prior connection — in good standing or in its grace period — is
    /// handed back to be closed, and its session carries on with the new
    /// connection. A first connection opens the session, and the room must
    /// then evaluate the member's endpoint edges.
    pub fn connection_established(&mut self, member_id: &MemberId, conn: RpcConnection) -> (r:
        Result<ConnectOutcome, RoomError>)
        requires
            old(self).wf(),
        ensures
            final(self).wf(),
            final(self).room_id == old(self).room_id,
            final(self).members == old(self).members,
            final(self).reconnect_timeout_ms == old(self).reconnect_timeout_ms,
            ({
                let mi = member_idx(old(self).members@, member_id@);
                match r {
                    Ok(outcome) => {
                        &&& mi >= 0
                        &&& final(self).sessions@ == old(self).sessions@.update(
                            mi,
                            SessionState::Connected(conn),
                        )
                        &&& match old(self).sessions@[mi] {
                            SessionState::Disconnected => outcome == ConnectOutcome::NewSession,
                            SessionState::Connected(c) => outcome == ConnectOutcome::ReplacedOld(
                                c,
                            ),
                            SessionState::Grace(c) => outcome == ConnectOutcome::ReplacedOld(c),
                        }
                    },
                    Err(e) => mi == -1 && final(self).sessions == old(self).sessions && match e {
                        RoomError::MemberNotFound(id) => id@ == member_id@,
                        _ => false,
                    },
                }
            }),
    {
        match self.find_member(member_id) {
            Some(i) => {
                let prior = self.sessions[i];
                self.sessions.set(i, SessionState::Connected(conn));
                match prior {
                    SessionState::Disconnected => Ok(ConnectOutcome::NewSession),
                    SessionState::Connected(c) => Ok(ConnectOutcome::ReplacedOld(c)),
                    SessionState::Grace(c) => Ok(ConnectOutcome::ReplacedOld(c)),
                }
            },
            None => Err(RoomError::MemberNotFound(member_id.clone_id())),
        }
    }

    /// Takes a closed-connection report.
    ///
    /// `Closed` ends the session and hands back the member's TURN
    /// credential for release. `Lost` keeps the connection and starts the
    /// reconnect grace period; when the grace timer fires, the transport
    /// reports the same connection `Closed`.
    pub fn connection_closed(&mut self, member_id: &MemberId, reason: ClosedReason) -> (r:
        ClosedOutcome)
        requires
            old(self).wf(),
        ensures
            final(self).wf(),
            final(self).room_id == old(self).room_id,
            final(self).reconnect_timeout_ms == old(self).reconnect_timeout_ms,
            ({
                let mi = member_idx(old(self).members@, member_id@);
                if mi == -1 || old(self).sessions@[mi] is Disconnected {
                    r == ClosedOutcome::NoSession && *final(self) == *old(self)
                } else {
                    match reason {
                        ClosedReason::Closed => {
                            &&& final(self).sessions@ == old(self).sessions@.update(
                                mi,
                                SessionState::Disconnected,
                            )
                            &&& final(self).members@.len() == old(self).members@.len()
                            &&& final(self).members@ == old(self).members@.update(
                                mi,
                                final(self).members@[mi],
                            )
                            &&& final(self).members@[mi] == (Member {
                                ice_user: None::<IceUser>,
                                ..old(self).members@[mi]
                            })
                            &&& r == ClosedOutcome::Removed(old(self).members@[mi].ice_user)
                        },
                        ClosedReason::Lost => {
                            &&& final(self).members == old(self).members
                            &&& match old(self).sessions@[mi] {
                                SessionState::Connected(c) => final(self).sessions@ == old(
                                    self,
                                ).sessions@.update(mi, SessionState::Grace(c)),
                                _ => final(self).sessions == old(self).sessions,
                            }
                            &&& r == ClosedOutcome::GraceInstalled(
                                old(self).reconnect_timeout_ms,
                            )
                        },
                    }
                }
            }),
    {
        match self.find_member(member_id) {
            Some(i) => {
                let prior = self.sessions[i];
                match prior {
                    SessionState::Disconnected => ClosedOutcome::NoSession,
                    SessionState::Connected(c) => {
                        match reason {
                            ClosedReason::Closed => {
                                self.sessions.set(i, SessionState::Disconnected);
                                let mut m = self.members.remove(i);
                                let ice = m.take_ice_user();
                                self.members.insert(i, m);
                                proof {
                                    assert(self.members@ =~= old(self).members@.update(
                                        i as int,
                                        self.members@[i as int],
                                    ));
                                }
                                ClosedOutcome::Removed(ice)
                            },
                            ClosedReason::Lost => {
                                self.sessions.set(i, SessionState::Grace(c));
                                ClosedOutcome::GraceInstalled(self.reconnect_timeout_ms)
                            },
                        }
                    },
                    SessionState::Grace(_) => {
                        match reason {
                            ClosedReason::Closed => {
                                self.sessions.set(i, SessionState::Disconnected);
                                let mut m = self.members.remove(i);
                                let ice = m.take_ice_user();
                                self.members.insert(i, m);
                                proof {
                                    assert(self.members@ =~= old(self).members@.update(
                                        i as int,
                                        self.members@[i as int],
                                    ));
                                }
                                ClosedOutcome::Removed(ice)
                            },
                            ClosedReason::Lost => ClosedOutcome::GraceInstalled(
                                self.reconnect_timeout_ms,
                            ),
                        }
                    },
                }
            },
            None => ClosedOutcome::NoSession,
        }
    }

    /// Picks the connection an event for the member must be sent on: any
    /// live one, its grace period notwithstanding. Fails exactly when the
    /// member has no live connection.
    pub fn send_event_to_member(&self, member_id: &MemberId) -> (r: Result<
        RpcConnection,
        RoomError,
    >)
        requires
            self.wf(),
        ensures
            ({
                let mi = member_idx(self.members@, member_id@);
                match r {
                    Ok(c) => mi >= 0 && (self.sessions@[mi] == SessionState::Connected(c)
                        || self.sessions@[mi] == SessionState::Grace(c)),
                    Err(RoomError::ConnectionNotExists(id)) => id@ == member_id@ && (mi == -1
                        || self.sessions@[mi] is Disconnected),
                    Err(_) => false,
                }
            }),
    {
        match self.find_member(member_id) {
            Some(i) => {
                match self.sessions[i] {
                    SessionState::Connected(c) => Ok(c),
                    SessionState::Grace(c) => Ok(c),
                    SessionState::Disconnected => Err(
                        RoomError::ConnectionNotExists(member_id.clone_id()),
                    ),
                }
            },
            None => Err(RoomError::ConnectionNotExists(member_id.clone_id())),
        }
    }

    /// Removes every member with the given ID, together with its session,
    /// and hands back the TURN credentials the removed members held, for
    /// the caller to release.
    #[verifier::loop_isolation(false)]
    #[verifier::rlimit(100)]
    #[verifier::spinoff_prover]
    pub fn remove_members_with_id(&mut self, member_id: &MemberId) -> (r: Vec<IceUser>)
        requires
            old(self).wf(),
        ensures
            final(self).wf(),
            final(self).room_id == old(self).room_id,
            final(self).reconnect_timeout_ms == old(self).reconnect_timeout_ms,
            forall|j: int|
                0 <= j < final(self).members@.len() ==> (#[trigger] final(self).members@[j]).id@
                    != member_id@,
            // every other member survives, unchanged
            forall|j: int|
                0 <= j < old(self).members@.len() && (#[trigger] old(self).members@[j]).id@
                    != member_id@ ==> exists|k: int|
                    0 <= k < final(self).members@.len() && final(self).members@[k] == old(
                        self,
                    ).members@[j],
            // every surviving member stood before
            forall|k: int|
                0 <= k < final(self).members@.len() ==> old(self).members@.contains(
                    #[trigger] final(self).members@[k],
                ),
            // the removed members' credentials come back
            forall|j: int|
                0 <= j < old(self).members@.len() && (#[trigger] old(self).members@[j]).id@
                    == member_id@ && old(self).members@[j].ice_user is Some ==> r@.contains(
                    old(self).members@[j].ice_user->0,
                ),
    {
        let ghost m0 = old(self).members@;
        let mut ices: Vec<IceUser> = Vec::new();
        let mut i: usize = 0;
        while i < self.members.len()
            invariant
                self.wf(),
                self.room_id == old(self).room_id,
                self.reconnect_timeout_ms == old(self).reconnect_timeout_ms,
                0 <= i <= self.members@.len(),
                forall|j: int| 0 <= j < i ==> (#[trigger] self.members@[j]).id@ != member_id@,
                forall|k: int| 0 <= k < self.members@.len() ==> m0.contains(
                    #[trigger] self.members@[k],
                ),
                forall|j: int|
                    0 <= j < m0.len() && (#[trigger] m0[j]).id@ != member_id@ ==> exists|k: int|
                        0 <= k < self.members@.len() && self.members@[k] == m0[j],
                forall|j: int|
                    0 <= j < m0.len() && (#[trigger] m0[j]).id@ == member_id@ && m0[j].ice_user
                        is Some ==> ices@.contains(m0[j].ice_user->0) || (exists|k: int|
                        i <= k < self.members@.len() && self.members@[k] == m0[j]),
            decreases self.members@.len() - i,
        {
            if self.members[i].id.eq_id(member_id) {
                let ghost msv = self.members@;
                let ghost ices0 = ices@;
                let mut m = self.members.remove(i);
                let _ = self.sessions.remove(i);
                if let Some(u) = m.take_ice_user() {
                    ices.push(u);
                }
                proof {
                    assert forall|x: IceUser| ices0.contains(x) implies ices@.contains(x) by {
                        let w = choose|w: int| 0 <= w < ices0.len() && ices0[w] == x;
                        assert(ices@[w] == x);
                    }
                    assert forall|k: int|
                        0 <= k < self.members@.len() implies m0.contains(
                        #[trigger] self.members@[k]) by {
                        if k < i as int {
                            assert(self.members@[k] == msv[k]);
                        } else {
                            assert(self.members@[k] == msv[k + 1]);
                        }
                    }
                    assert forall|j: int|
                        0 <= j < m0.len() && (#[trigger] m0[j]).id@ != member_id@ implies exists|
                        k: int,
                    |
                        0 <= k < self.members@.len() && self.members@[k] == m0[j] by {
                        let k = choose|k: int| 0 <= k < msv.len() && msv[k] == m0[j];
                        if k < i as int {
                            assert(self.members@[k] == m0[j]);
                        } else {
                            assert(k != i as int);
                            assert(self.members@[k - 1] == m0[j]);
                        }
                    }
                    assert forall|j: int|
                        0 <= j < m0.len() && (#[trigger] m0[j]).id@ == member_id@ && m0[j].ice_user
                            is Some implies ices@.contains(m0[j].ice_user->0) || (exists|k: int|
                        i <= k < self.members@.len() && self.members@[k] == m0[j]) by {
                        if !ices0.contains(m0[j].ice_user->0) {
                            let k = choose|k: int| i <= k < msv.len() && msv[k] == m0[j];
                            if k == i as int {
                                assert(msv[i as int].ice_user is Some);
                                assert(ices@ == ices0.push(msv[i as int].ice_user->0));
                                assert(ices@[ices@.len() - 1] == m0[j].ice_user->0);
                            } else {
                                assert(self.members@[k - 1] == msv[k]);
                            }
                        }
                    }
                }
            } else {
                proof {
                    assert forall|j: int|
                        0 <= j < m0.len() && (#[trigger] m0[j]).id@ == member_id@ && m0[j].ice_user
                            is Some && !ices@.contains(m0[j].ice_user->0) implies exists|k: int|
                        i + 1 <= k < self.members@.len() && self.members@[k] == m0[j] by {
                        let k = choose|k: int|
                            i <= k < self.members@.len() && self.members@[k] == m0[j];
                        assert(k != i as int);
                    }
                }
                i = i + 1;
            }
        }
        ices
    }

    /// Strips every member-held TURN credential and hands them back, for
    /// the caller to release when the room goes away.
    #[verifier::loop_isolation(false)]
    #[verifier::rlimit(60)]
    #[verifier::spinoff_prover]
    pub fn take_ice_users(&mut self) -> (r: Vec<IceUser>)
        ensures
            *final(self) == (MembersManager { members: final(self).members, ..*old(self) }),
            final(self).members@.len() == old(self).members@.len(),
            forall|j: int|
                0 <= j < final(self).members@.len() ==> #[trigger] final(self).members@[j] == (
                Member { ice_user: None::<IceUser>, ..old(self).members@[j] }),
            forall|j: int|
                0 <= j < old(self).members@.len() && (#[trigger] old(self).members@[j]).ice_user
                    is Some ==> r@.contains(old(self).members@[j].ice_user->0),
            r@ == members_ice(old(self).members@, old(self).members@.len() as int),
    {
        let mut ices: Vec<IceUser> = Vec::new();
        let mut i: usize = 0;
        while i < self.members.len()
            invariant
                0 <= i <= self.members@.len(),
                self.members@.len() == old(self).members@.len(),
                *self == (MembersManager { members: self.members, ..*old(self) }),
                forall|j: int|
                    0 <= j < i ==> #[trigger] self.members@[j] == (Member {
                        ice_user: None::<IceUser>,
                        ..old(self).members@[j]
                    }),
                forall|j: int|
                    0 <= j < i && (#[trigger] old(self).members@[j]).ice_user is Some
                        ==> ices@.contains(old(self).members@[j].ice_user->0),
                ices@ == members_ice(old(self).members@, i as int),
                forall|j: int|
                    i <= j < self.members@.len() ==> #[trigger] self.members@[j] == old(
                        self,
                    ).members@[j],
            decreases self.members@.len() - i,
        {
            let ghost sv = self.members@;
            let ghost ices0 = ices@;
            let mut m = self.members.remove(i);
            if let Some(u) = m.take_ice_user() {
                ices.push(u);
            }
            self.members.insert(i, m);
            proof {
                assert(self.members@ =~= sv.update(i as int, self.members@[i as int]));
                assert forall|x: IceUser| ices0.contains(x) implies ices@.contains(x) by {
                    let w = choose|w: int| 0 <= w < ices0.len() && ices0[w] == x;
                    assert(ices@[w] == x);
                }
                if old(self).members@[i as int].ice_user is Some {
                    assert(ices@[ices@.len() - 1] == old(self).members@[i as int].ice_user->0);
                }
                assert(ices@ =~= members_ice(old(self).members@, i as int + 1));
            }
            i = i + 1;
        }
        ices
    }

    /// Ends every session: cancels every grace period, disconnects every
    /// member, and hands back the connections for the transport to close.
    #[verifier::loop_isolation(false)]
    pub fn drop_connections(&mut self) -> (r: Vec<RpcConnection>)
        requires
            old(self).wf(),
        ensures
            final(self).wf(),
            final(self).room_id == old(self).room_id,
            final(self).members == old(self).members,
            final(self).reconnect_timeout_ms == old(self).reconnect_timeout_ms,
            final(self).sessions@.len() == old(self).sessions@.len(),
            forall|i: int| 0 <= i < final(self).sessions@.len() ==> final(self).sessions@[i]
                is Disconnected,
            forall|i: int| 0 <= i < old(self).sessions@.len() ==> {
                let s = #[trigger] old(self).sessions@[i];
                match s {
                    SessionState::Connected(c) => r@.contains(c),
                    SessionState::Grace(c) => r@.contains(c),
                    SessionState::Disconnected => true,
                }
            },
    {
        let mut out: Vec<RpcConnection> = Vec::new();
        let mut i: usize = 0;
        while i < self.sessions.len()
            invariant
                0 <= i <= self.sessions@.len(),
                self.sessions@.len() == old(self).sessions@.len(),
                self.room_id == old(self).room_id,
                self.members == old(self).members,
                self.reconnect_timeout_ms == old(self).reconnect_timeout_ms,
                forall|j: int| 0 <= j < i ==> self.sessions@[j] is Disconnected,
                forall|j: int| i <= j < self.sessions@.len() ==> self.sessions@[j] == old(
                    self,
                ).sessions@[j],
                forall|j: int| 0 <= j < i ==> {
                    let s = #[trigger] old(self).sessions@[j];
                    match s {
                        SessionState::Connected(c) => out@.contains(c),
                        SessionState::Grace(c) => out@.contains(c),
                        SessionState::Disconnected => true,
                    }
                },
            decreases self.sessions@.len() - i,
        {
            let ghost out0 = out@;
            match self.sessions[i] {
                SessionState::Connected(c) => {
                    out.push(c);
                    proof {
                        assert(out@[out@.len() - 1] == c);
                    }
                },
                SessionState::Grace(c) => {
                    out.push(c);
                    proof {
                        assert(out@[out@.len() - 1] == c);
                    }
                },
                SessionState::Disconnected => {},
            }
            self.sessions.set(i, SessionState::Disconnected);
            proof {
                assert forall|j: int| 0 <= j < i implies {
                    let s = #[trigger] old(self).sessions@[j];
                    match s {
                        SessionState::Connected(c) => out@.contains(c),
                        SessionState::Grace(c) => out@.contains(c),
                        SessionState::Disconnected => true,
                    }
                } by {
                    match old(self).sessions@[j] {
                        SessionState::Connected(c) => {
                            if out0.contains(c) {
                                let w = choose|w: int| 0 <= w < out0.len() && out0[w] == c;
                                assert(out@[w] == c);
                            }
                        },
                        SessionState::Grace(c) => {
                            if out0.contains(c) {
                                let w = choose|w: int| 0 <= w < out0.len() && out0[w] == c;
                                assert(out@[w] == c);
                            }
                        },
                        SessionState::Disconnected => {},
                    }
                }
            }
            i = i + 1;
        }
        out
    }
}

} // verus!
