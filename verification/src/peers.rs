//! The repository that owns all peers of one room: it assigns peer and
//! track IDs, creates peer pairs with their TURN credentials, and tears
//! pairs down.

use vstd::prelude::*;

use crate::endpoint::{WebRtcPlayEndpoint, WebRtcPublishEndpoint};
use crate::errors::{RoomError, TurnServiceErr};
use crate::ice::{IceUser, TurnAuthService, UnreachablePolicy};
use crate::ids::{Counter, MemberId, PeerId, RoomId};
use crate::peer::{publisher_tracks, Peer, PeerStateMachine, Stable, TrackChange};

verus! {

/// The index of the first peer with the given ID, or `-1`.
pub open spec fn peer_idx(s: Seq<PeerStateMachine>, id: PeerId) -> int
    decreases s.len(),
{
    if s.len() == 0 {
        -1
    } else if s[0].ctx().id == id {
        0
    } else {
        let rest = peer_idx(s.subrange(1, s.len() as int), id);
        if rest == -1 {
            -1
        } else {
            rest + 1
        }
    }
}

/// What [`peer_idx`] returns.
pub proof fn lemma_peer_idx(s: Seq<PeerStateMachine>, id: PeerId)
    ensures
        peer_idx(s, id) >= -1,
        peer_idx(s, id) == -1 ==> forall|j: int| 0 <= j < s.len() ==> s[j].ctx().id != id,
        peer_idx(s, id) >= 0 ==> {
            &&& peer_idx(s, id) < s.len()
            &&& s[peer_idx(s, id)].ctx().id == id
            &&& forall|j: int| 0 <= j < peer_idx(s, id) ==> s[j].ctx().id != id
        },
    decreases s.len(),
{
    if s.len() > 0 && s[0].ctx().id != id {
        let rest = s.subrange(1, s.len() as int);
        lemma_peer_idx(rest, id);
        let fr = peer_idx(rest, id);
        if fr >= 0 {
            assert(s[fr + 1] == rest[fr]);
            assert forall|j: int| 0 <= j < fr + 1 implies s[j].ctx().id != id by {
                if j >= 1 {
                    assert(rest[j - 1] == s[j]);
                }
            }
        } else {
            assert forall|j: int| 0 <= j < s.len() implies s[j].ctx().id != id by {
                if j >= 1 {
                    assert(0 <= j - 1 < rest.len());
                    assert(rest[j - 1].ctx().id != id);
                    assert(rest[j - 1] == s[j]);
                }
            }
        }
    }
}

/// Whether the repository holds a peer with the given ID.
pub open spec fn has_peer(s: Seq<PeerStateMachine>, id: PeerId) -> bool {
    peer_idx(s, id) >= 0
}

/// Whether every peer's partner is present and points back at it: the pair
/// invariant of a room at rest.
pub open spec fn pairs_consistent(s: Seq<PeerStateMachine>) -> bool {
    forall|i: int| #![trigger s[i]] 0 <= i < s.len() ==> exists|j: int|
        0 <= j < s.len() && #[trigger] partner_of(s[j], s[i])
}

/// Whether `q` is the partner peer of `p`: it carries the ID `p` points
/// at, it points back at `p`, and the owning members cross over.
pub open spec fn partner_of(q: PeerStateMachine, p: PeerStateMachine) -> bool {
    &&& q.ctx().id == p.ctx().partner_peer
    &&& q.ctx().partner_peer == p.ctx().id
    &&& q.ctx().member_id@ == p.ctx().partner_member@
    &&& q.ctx().partner_member@ == p.ctx().member_id@
}

/// Law: in a room at rest, every peer's partner exists and points back at
/// it.
pub proof fn lemma_partner_points_back(s: Seq<PeerStateMachine>, i: int)
    requires
        pairs_consistent(s),
        0 <= i < s.len(),
    ensures
        exists|j: int| 0 <= j < s.len() && #[trigger] partner_of(s[j], s[i]),
{
    let p = s[i];
    assert(pairs_consistent(s));
}

/// Whether removing the requested peers drags this peer away: it is
/// requested itself, or its partner is.
pub open spec fn dragged(p: PeerStateMachine, req: Seq<PeerId>) -> bool {
    req.contains(p.ctx().id) || req.contains(p.ctx().partner_peer)
}

/// The first `n` peers that survive removing the requested ones and their
/// partners, in order.
pub open spec fn peers_kept(
    s: Seq<PeerStateMachine>,
    req: Seq<PeerId>,
    n: int,
) -> Seq<PeerStateMachine>
    decreases n,
{
    if n <= 0 {
        Seq::empty()
    } else {
        let prev = peers_kept(s, req, n - 1);
        if dragged(s[n - 1], req) {
            prev
        } else {
            prev.push(s[n - 1])
        }
    }
}

/// The (owning member, peer) entries of the first `n` peers that removing
/// the requested ones takes away, in order.
pub open spec fn removed_entries(
    s: Seq<PeerStateMachine>,
    req: Seq<PeerId>,
    n: int,
) -> Seq<(MemberId, PeerId)>
    decreases n,
{
    if n <= 0 {
        Seq::empty()
    } else {
        let prev = removed_entries(s, req, n - 1);
        if dragged(s[n - 1], req) {
            prev.push((s[n - 1].ctx().member_id, s[n - 1].ctx().id))
        } else {
            prev
        }
    }
}

/// The TURN credentials held by the first `n` peers that removing the
/// requested ones takes away, in order.
pub open spec fn removed_ice(s: Seq<PeerStateMachine>, req: Seq<PeerId>, n: int) -> Seq<IceUser>
    decreases n,
{
    if n <= 0 {
        Seq::empty()
    } else {
        let prev = removed_ice(s, req, n - 1);
        if dragged(s[n - 1], req) && s[n - 1].ctx().ice_user is Some {
            prev.push(s[n - 1].ctx().ice_user->0)
        } else {
            prev
        }
    }
}

/// The TURN credentials held by the first `n` peers, in order.
pub open spec fn all_ice(s: Seq<PeerStateMachine>, n: int) -> Seq<IceUser>
    decreases n,
{
    if n <= 0 {
        Seq::empty()
    } else {
        let prev = all_ice(s, n - 1);
        if s[n - 1].ctx().ice_user is Some {
            prev.push(s[n - 1].ctx().ice_user->0)
        } else {
            prev
        }
    }
}

/// Every credential of a removed peer is handed back: none is leaked.
pub proof fn lemma_removed_ice_complete(s: Seq<PeerStateMachine>, req: Seq<PeerId>, n: int)
    requires
        n <= s.len(),
    ensures
        forall|oi: int|
            0 <= oi < n && dragged(#[trigger] s[oi], req) && s[oi].ctx().ice_user is Some
                ==> removed_ice(s, req, n).contains(s[oi].ctx().ice_user->0),
    decreases n,
{
    if n > 0 {
        lemma_removed_ice_complete(s, req, n - 1);
        let prev = removed_ice(s, req, n - 1);
        let cur = removed_ice(s, req, n);
        assert forall|oi: int|
            0 <= oi < n && dragged(#[trigger] s[oi], req) && s[oi].ctx().ice_user
                is Some implies cur.contains(s[oi].ctx().ice_user->0) by {
            if oi < n - 1 {
                assert(prev.contains(s[oi].ctx().ice_user->0));
                let w = choose|w: int| 0 <= w < prev.len() && prev[w] == s[oi].ctx().ice_user->0;
                assert(cur[w] == s[oi].ctx().ice_user->0);
            } else {
                assert(cur[cur.len() - 1] == s[oi].ctx().ice_user->0);
            }
        }
    }
}

/// Every credential handed back came from a peer that the removal dragged
/// away and that held it.
pub proof fn lemma_removed_ice_src(s: Seq<PeerStateMachine>, req: Seq<PeerId>, n: int)
    requires
        n <= s.len(),
    ensures
        forall|k: int| 0 <= k < removed_ice(s, req, n).len() ==> exists|oi: int|
            0 <= oi < n && dragged(s[oi], req) && s[oi].ctx().ice_user == Some(
                #[trigger] removed_ice(s, req, n)[k],
            ),
    decreases n,
{
    if n > 0 {
        lemma_removed_ice_src(s, req, n - 1);
        let prev = removed_ice(s, req, n - 1);
        let cur = removed_ice(s, req, n);
        assert forall|k: int| 0 <= k < cur.len() implies exists|oi: int|
            0 <= oi < n && dragged(s[oi], req) && s[oi].ctx().ice_user == Some(
                #[trigger] cur[k],
            ) by {
            if k < prev.len() {
                assert(cur[k] == prev[k]);
                let oi = choose|oi: int|
                    0 <= oi < n - 1 && dragged(s[oi], req) && s[oi].ctx().ice_user == Some(
                        prev[k],
                    );
                assert(0 <= oi < n && dragged(s[oi], req) && s[oi].ctx().ice_user == Some(
                    cur[k],
                ));
            } else {
                assert(dragged(s[n - 1], req));
                assert(s[n - 1].ctx().ice_user == Some(cur[k]));
            }
        }
    }
}

/// Everything kept was already there and was not dragged, and everything
/// not dragged is kept.
pub proof fn lemma_peers_kept(s: Seq<PeerStateMachine>, req: Seq<PeerId>, n: int)
    requires
        n <= s.len(),
    ensures
        forall|j: int| 0 <= j < peers_kept(s, req, n).len() ==> exists|i: int|
            0 <= i < n && s[i] == #[trigger] peers_kept(s, req, n)[j] && !dragged(s[i], req),
        forall|i: int| 0 <= i < n && !dragged(s[i], req) ==> peers_kept(s, req, n).contains(
            s[i],
        ),
    decreases n,
{
    if n > 0 {
        lemma_peers_kept(s, req, n - 1);
        let prev = peers_kept(s, req, n - 1);
        let cur = peers_kept(s, req, n);
        assert forall|j: int| 0 <= j < cur.len() implies exists|i: int|
            0 <= i < n && s[i] == #[trigger] cur[j] && !dragged(s[i], req) by {
            if j < prev.len() {
                assert(cur[j] == prev[j]);
                let i = choose|i: int| 0 <= i < n - 1 && s[i] == prev[j] && !dragged(s[i], req);
                assert(s[i] == cur[j] && !dragged(s[i], req));
            } else {
                assert(!dragged(s[n - 1], req));
                assert(cur[j] == s[n - 1]);
            }
        }
        assert forall|i: int| 0 <= i < n && !dragged(s[i], req) implies cur.contains(s[i]) by {
            if i < n - 1 {
                assert(prev.contains(s[i]));
                let w = choose|w: int| 0 <= w < prev.len() && prev[w] == s[i];
                assert(cur[w] == s[i]);
            } else {
                assert(cur[cur.len() - 1] == s[i]);
            }
        }
    }
}



/// Every removed entry names an owning member and peer that stood in the
/// repository.
proof fn lemma_removed_entries_src(s: Seq<PeerStateMachine>, req: Seq<PeerId>, n: int)
    requires
        n <= s.len(),
    ensures
        forall|k: int| 0 <= k < removed_entries(s, req, n).len() ==> exists|oi: int|
            0 <= oi < n && (#[trigger] removed_entries(s, req, n)[k]).0 == s[oi].ctx().member_id
                && removed_entries(s, req, n)[k].1 == s[oi].ctx().id,
    decreases n,
{
    if n > 0 {
        lemma_removed_entries_src(s, req, n - 1);
        let prev = removed_entries(s, req, n - 1);
        let cur = removed_entries(s, req, n);
        assert forall|k: int| 0 <= k < cur.len() implies exists|oi: int|
            0 <= oi < n && (#[trigger] cur[k]).0 == s[oi].ctx().member_id && cur[k].1
                == s[oi].ctx().id by {
            if k < prev.len() {
                assert(cur[k] == prev[k]);
                let oi = choose|oi: int|
                    0 <= oi < n - 1 && (#[trigger] prev[k]).0 == s[oi].ctx().member_id && prev[
                        k
                    ].1 == s[oi].ctx().id;
                assert(0 <= oi < n && cur[k].0 == s[oi].ctx().member_id && cur[k].1
                    == s[oi].ctx().id);
            } else {
                assert(dragged(s[n - 1], req));
                assert(cur[k].0 == s[n - 1].ctx().member_id && cur[k].1 == s[n - 1].ctx().id);
            }
        }
    }
}

/// Kept peers and removed entries together account for every peer.
proof fn lemma_kept_entries_len(s: Seq<PeerStateMachine>, req: Seq<PeerId>, n: int)
    requires
        0 <= n <= s.len(),
    ensures
        peers_kept(s, req, n).len() + removed_entries(s, req, n).len() == n,
    decreases n,
{
    if n > 0 {
        lemma_kept_entries_len(s, req, n - 1);
    }
}

/// The repository of one room's peers.
pub struct PeerRepository {
    /// The room the peers belong to.
    pub room_id: RoomId,
    /// The peers, every pair together.
    pub peers: Vec<PeerStateMachine>,
    /// The peer ID counter; never reused.
    pub peers_count: Counter,
    /// The track ID counter; never reused.
    pub tracks_count: Counter,
}

impl PeerRepository {
    /// An empty repository for the given room.
    pub fn new(room_id: RoomId) -> (r: Self)
        ensures
            r.room_id == room_id,
            r.peers@ == Seq::<PeerStateMachine>::empty(),
            r.peers_count.count == 0,
            r.tracks_count.count == 0,
    {
        PeerRepository {
            room_id,
            peers: Vec::new(),
            peers_count: Counter { count: 0 },
            tracks_count: Counter { count: 0 },
        }
    }

    /// Stores a peer.
    pub fn add_peer(&mut self, peer: PeerStateMachine)
        ensures
            *final(self) == (PeerRepository { peers: final(self).peers, ..*old(self) }),
            final(self).peers@ == old(self).peers@.push(peer),
    {
        self.peers.push(peer);
    }

    /// Strips every stored TURN credential out of the peers and hands them
    /// back, for the caller to release when the room goes away.
    #[verifier::loop_isolation(false)]
    #[verifier::rlimit(60)]
    #[verifier::spinoff_prover]
    pub fn take_ice_users(&mut self) -> (r: Vec<IceUser>)
        ensures
            *final(self) == (PeerRepository { peers: final(self).peers, ..*old(self) }),
            final(self).peers@.len() == old(self).peers@.len(),
            forall|oi: int|
                0 <= oi < old(self).peers@.len() && (#[trigger] old(self).peers@[
                    oi
                ]).ctx().ice_user is Some ==> r@.contains(old(self).peers@[oi].ctx().ice_user->0),
            r@ == all_ice(old(self).peers@, old(self).peers@.len() as int),
    {
        let mut ices: Vec<IceUser> = Vec::new();
        let mut i: usize = 0;
        while i < self.peers.len()
            invariant
                0 <= i <= self.peers@.len(),
                self.peers@.len() == old(self).peers@.len(),
                *self == (PeerRepository { peers: self.peers, ..*old(self) }),
                forall|oi: int|
                    0 <= oi < i && (#[trigger] old(self).peers@[oi]).ctx().ice_user is Some
                        ==> ices@.contains(old(self).peers@[oi].ctx().ice_user->0),
                ices@ == all_ice(old(self).peers@, i as int),
                forall|oi: int|
                    i <= oi < self.peers@.len() ==> #[trigger] self.peers@[oi] == old(
                        self,
                    ).peers@[oi],
            decreases self.peers@.len() - i,
        {
            let ghost sv = self.peers@;
            let ghost ices0 = ices@;
            let mut p = self.peers.remove(i);
            if let Some(u) = p.take_ice_user() {
                ices.push(u);
            }
            self.peers.insert(i, p);
            proof {
                assert(self.peers@ =~= sv.update(i as int, self.peers@[i as int]));
                assert forall|x: IceUser| ices0.contains(x) implies ices@.contains(x) by {
                    let w = choose|w: int| 0 <= w < ices0.len() && ices0[w] == x;
                    assert(ices@[w] == x);
                }
                if old(self).peers@[i as int].ctx().ice_user is Some {
                    assert(ices@[ices@.len() - 1] == old(self).peers@[i as int].ctx().ice_user->0);
                }
                assert(ices@ =~= all_ice(old(self).peers@, i as int + 1));
            }
            i = i + 1;
        }
        ices
    }

    /// Returns the index of the peer with the given ID, if one is stored.
    #[verifier::loop_isolation(false)]
    pub fn find_peer(&self, peer_id: PeerId) -> (r: Option<usize>)
        ensures
            match r {
                Some(i) => i as int == peer_idx(self.peers@, peer_id) && i < self.peers@.len()
                    && self.peers@[i as int].ctx().id == peer_id,
                None => peer_idx(self.peers@, peer_id) == -1 && forall|j: int|
                    0 <= j < self.peers@.len() ==> self.peers@[j].ctx().id != peer_id,
            },
    {
        proof {
            lemma_peer_idx(self.peers@, peer_id);
        }
        let mut i: usize = 0;
        while i < self.peers.len()
            invariant
                0 <= i <= self.peers@.len(),
                forall|j: int| 0 <= j < i ==> self.peers@[j].ctx().id != peer_id,
            decreases self.peers@.len() - i,
        {
            if self.peers[i].id().0 == peer_id.0 {
                proof {
                    assert(self.peers@[i as int].ctx().id == peer_id);
                }
                return Some(i);
            }
            i = i + 1;
        }
        None
    }

    /// Borrows the peer with the given ID; fails with `PeerNotFound`
    /// exactly when no peer has it.
    pub fn get_peer_by_id(&self, peer_id: PeerId) -> (r: Result<&PeerStateMachine, RoomError>)
        ensures
            match r {
                Ok(p) => has_peer(self.peers@, peer_id) && *p == self.peers@[peer_idx(
                    self.peers@,
                    peer_id,
                )] && p.ctx().id == peer_id,
                Err(e) => !has_peer(self.peers@, peer_id) && e == RoomError::PeerNotFound(
                    peer_id,
                ),
            },
    {
        match self.find_peer(peer_id) {
            Some(i) => Ok(&self.peers[i]),
            None => Err(RoomError::PeerNotFound(peer_id)),
        }
    }

    /// Takes the peer with the given ID out of the repository; fails with
    /// `PeerNotFound` exactly when no peer has it.
    pub fn take_peer(&mut self, peer_id: PeerId) -> (r: Result<PeerStateMachine, RoomError>)
        ensures
            *final(self) == (PeerRepository { peers: final(self).peers, ..*old(self) }),
            match r {
                Ok(p) => {
                    &&& has_peer(old(self).peers@, peer_id)
                    &&& p == old(self).peers@[peer_idx(old(self).peers@, peer_id)]
                    &&& p.ctx().id == peer_id
                    &&& final(self).peers@ == old(self).peers@.remove(
                        peer_idx(old(self).peers@, peer_id),
                    )
                    &&& final(self).peers@.len() == old(self).peers@.len() - 1
                },
                Err(e) => {
                    &&& !has_peer(old(self).peers@, peer_id)
                    &&& final(self).peers == old(self).peers
                    &&& e == RoomError::PeerNotFound(peer_id)
                },
            },
    {
        match self.find_peer(peer_id) {
            Some(i) => Ok(self.peers.remove(i)),
            None => Err(RoomError::PeerNotFound(peer_id)),
        }
    }

    /// Looks for a peer of `member_id` paired with a peer of
    /// `partner_member_id`; returns both IDs when such a pair exists.
    #[verifier::loop_isolation(false)]
    pub fn get_peer_by_members_ids(&self, member_id: &MemberId, partner_member_id: &MemberId) -> (r:
        Option<(PeerId, PeerId)>)
        ensures
            match r {
                Some(ids) => exists|i: int|
                    0 <= i < self.peers@.len() && (#[trigger] self.peers@[i]).ctx().member_id@
                        == member_id@ && self.peers@[i].ctx().partner_member@
                        == partner_member_id@ && ids.0 == self.peers@[i].ctx().id && ids.1
                        == self.peers@[i].ctx().partner_peer,
                None => forall|i: int| 0 <= i < self.peers@.len() ==> !((
                #[trigger] self.peers@[i]).ctx().member_id@ == member_id@
                    && self.peers@[i].ctx().partner_member@ == partner_member_id@),
            },
    {
        let mut i: usize = 0;
        while i < self.peers.len()
            invariant
                0 <= i <= self.peers@.len(),
                forall|j: int| 0 <= j < i ==> !((#[trigger] self.peers@[j]).ctx().member_id@
                    == member_id@ && self.peers@[j].ctx().partner_member@
                    == partner_member_id@),
            decreases self.peers@.len() - i,
        {
            let mid = self.peers[i].member_id();
            let pmid = self.peers[i].partner_member_id();
            if mid.eq_id(member_id) && pmid.eq_id(partner_member_id) {
                return Some((self.peers[i].id(), self.peers[i].partner_peer_id()));
            }
            i = i + 1;
        }
        None
    }

    /// The IDs of every peer the given member owns, in storage order.
    #[verifier::loop_isolation(false)]
    pub fn get_peers_by_member_id(&self, member_id: &MemberId) -> (r: Vec<PeerId>)
        ensures
            forall|i: int|
                0 <= i < self.peers@.len() && (#[trigger] self.peers@[i]).ctx().member_id@
                    == member_id@ ==> r@.contains(self.peers@[i].ctx().id),
    {
        let mut out: Vec<PeerId> = Vec::new();
        let mut i: usize = 0;
        while i < self.peers.len()
            invariant
                0 <= i <= self.peers@.len(),
                forall|j: int|
                    0 <= j < i && (#[trigger] self.peers@[j]).ctx().member_id@ == member_id@
                        ==> out@.contains(self.peers@[j].ctx().id),
            decreases self.peers@.len() - i,
        {
            let ghost out0 = out@;
            let mid = self.peers[i].member_id();
            if mid.eq_id(member_id) {
                out.push(self.peers[i].id());
                proof {
                    assert(out@[out@.len() - 1] == self.peers@[i as int].ctx().id);
                }
            }
            proof {
                assert forall|j: int|
                    0 <= j < i + 1 && (#[trigger] self.peers@[j]).ctx().member_id@ == member_id@
                        implies out@.contains(self.peers@[j].ctx().id) by {
                    if j < i {
                        if out0.contains(self.peers@[j].ctx().id) {
                            let w = choose|w: int|
                                0 <= w < out0.len() && out0[w] == self.peers@[j].ctx().id;
                            assert(out@[w] == self.peers@[j].ctx().id);
                        }
                    } else {
                        if self.peers@[j].ctx().member_id@ == member_id@ {
                            assert(out@[out@.len() - 1] == self.peers@[j].ctx().id);
                        }
                    }
                }
            }
            i = i + 1;
        }
        out
    }

    /// Removes the requested peers and, with each, its partner; hands back
    /// one (owning member, peer) entry per removed peer, in storage order,
    /// for the `PeersRemoved` events, together with every TURN credential
    /// the removed peers held, for the caller to release.
    #[verifier::loop_isolation(false)]
    pub fn remove_peers(&mut self, member_id: &MemberId, peer_ids: &Vec<PeerId>) -> (r: (
        Vec<(MemberId, PeerId)>,
        Vec<IceUser>,
    ))
        ensures
            *final(self) == (PeerRepository { peers: final(self).peers, ..*old(self) }),
            final(self).peers@ == peers_kept(
                old(self).peers@,
                peer_ids@,
                old(self).peers@.len() as int,
            ),
            r.0@ == removed_entries(old(self).peers@, peer_ids@, old(self).peers@.len() as int),
            r.0@.len() + final(self).peers@.len() == old(self).peers@.len(),
            forall|k: int| 0 <= k < r.0@.len() ==> exists|oi: int|
                0 <= oi < old(self).peers@.len() && (#[trigger] r.0@[k]).0 == old(
                    self,
                ).peers@[oi].ctx().member_id && r.0@[k].1 == old(self).peers@[oi].ctx().id,
            r.1@ == removed_ice(old(self).peers@, peer_ids@, old(self).peers@.len() as int),
    {
        proof {
            lemma_removed_entries_src(self.peers@, peer_ids@, self.peers@.len() as int);
            lemma_kept_entries_len(self.peers@, peer_ids@, self.peers@.len() as int);
        }
        let ghost s0 = self.peers@;
        let mut removed: Vec<(MemberId, PeerId)> = Vec::new();
        let mut ices: Vec<IceUser> = Vec::new();
        let mut i: usize = 0;
        while i < self.peers.len()
            invariant
                self.peers@.len() <= s0.len(),
                i <= self.peers@.len(),
                *self == (PeerRepository { peers: self.peers, ..*old(self) }),
                ({
                    let done = i + (s0.len() - self.peers@.len());
                    &&& done <= s0.len()
                    &&& self.peers@ == peers_kept(s0, peer_ids@, done as int) + s0.subrange(
                        done as int,
                        s0.len() as int,
                    )
                    &&& i as int == peers_kept(s0, peer_ids@, done as int).len()
                    &&& removed@ == removed_entries(s0, peer_ids@, done as int)
                    &&& ices@ == removed_ice(s0, peer_ids@, done as int)
                }),
            decreases self.peers@.len() - i,
        {
            let ghost done = i + (s0.len() - self.peers@.len());
            proof {
                assert(self.peers@[i as int] == s0[done as int]);
            }
            let id = self.peers[i].id();
            let partner = self.peers[i].partner_peer_id();
            let drag = contains_pid(peer_ids, id) || contains_pid(peer_ids, partner);
            if drag {
                let owner = self.peers[i].member_id();
                removed.push((owner, id));
                let mut gone = self.peers.remove(i);
                if let Some(u) = gone.take_ice_user() {
                    ices.push(u);
                }
                proof {
                    assert(self.peers@ =~= peers_kept(s0, peer_ids@, done as int + 1)
                        + s0.subrange(done as int + 1, s0.len() as int));
                    assert(removed@ =~= removed_entries(s0, peer_ids@, done as int + 1));
                    assert(ices@ =~= removed_ice(s0, peer_ids@, done as int + 1));
                }
            } else {
                proof {
                    assert(self.peers@ =~= peers_kept(s0, peer_ids@, done as int + 1)
                        + s0.subrange(done as int + 1, s0.len() as int));
                }
                i = i + 1;
            }
        }
        proof {
            assert(self.peers@ =~= peers_kept(s0, peer_ids@, s0.len() as int));
        }
        (removed, ices)
    }

    /// Removes every peer of the given member, each with its partner, as
    /// [`PeerRepository::remove_peers`] does; the second half of the result
    /// holds every TURN credential the removed peers held, for release.
    #[verifier::rlimit(60)]
    #[verifier::spinoff_prover]
    pub fn remove_peers_related_to_member(&mut self, member_id: &MemberId) -> (r: (
        Vec<(MemberId, PeerId)>,
        Vec<IceUser>,
    ))
        ensures
            *final(self) == (PeerRepository { peers: final(self).peers, ..*old(self) }),
            r.0@.len() + final(self).peers@.len() == old(self).peers@.len(),
            forall|k: int| 0 <= k < r.0@.len() ==> exists|oi: int|
                0 <= oi < old(self).peers@.len() && (#[trigger] r.0@[k]).0 == old(
                    self,
                ).peers@[oi].ctx().member_id && r.0@[k].1 == old(self).peers@[oi].ctx().id,
            forall|j: int|
                0 <= j < final(self).peers@.len() ==> (#[trigger] final(self).peers@[
                    j
                ]).ctx().member_id@ != member_id@,
            forall|j: int|
                0 <= j < final(self).peers@.len() ==> old(self).peers@.contains(
                    #[trigger] final(self).peers@[j],
                ),
            forall|k: int| 0 <= k < r.1@.len() ==> exists|oi: int|
                0 <= oi < old(self).peers@.len() && (#[trigger] r.1@[k]) == old(
                    self,
                ).peers@[oi].ctx().ice_user->0 && old(self).peers@[oi].ctx().ice_user is Some,
            forall|oi: int|
                0 <= oi < old(self).peers@.len() && (#[trigger] old(self).peers@[
                    oi
                ]).ctx().member_id@ == member_id@ && old(self).peers@[oi].ctx().ice_user is Some
                    ==> r.1@.contains(old(self).peers@[oi].ctx().ice_user->0),
    {
        let member_peers = self.get_peers_by_member_id(member_id);
        let r = self.remove_peers(member_id, &member_peers);
        proof {
            let s0 = old(self).peers@;
            lemma_peers_kept(s0, member_peers@, s0.len() as int);
            lemma_removed_ice_src(s0, member_peers@, s0.len() as int);
            lemma_removed_ice_complete(s0, member_peers@, s0.len() as int);
            assert forall|j: int| 0 <= j < self.peers@.len() implies s0.contains(
                #[trigger] self.peers@[j],
            ) by {
                let oi = choose|oi: int|
                    0 <= oi < s0.len() && s0[oi] == self.peers@[j] && !dragged(
                        s0[oi],
                        member_peers@,
                    );
                assert(s0[oi] == self.peers@[j]);
            }
            assert forall|k: int| 0 <= k < r.1@.len() implies exists|oi: int|
                0 <= oi < s0.len() && (#[trigger] r.1@[k]) == s0[oi].ctx().ice_user->0 && s0[
                    oi
                ].ctx().ice_user is Some by {
                let oi = choose|oi: int|
                    0 <= oi < s0.len() && dragged(s0[oi], member_peers@) && s0[oi].ctx().ice_user
                        == Some(r.1@[k]);
                assert(0 <= oi < old(self).peers@.len() && r.1@[k] == old(
                    self,
                ).peers@[oi].ctx().ice_user->0 && old(self).peers@[oi].ctx().ice_user is Some);
            }
            assert forall|oi: int|
                0 <= oi < s0.len() && (#[trigger] s0[oi]).ctx().member_id@ == member_id@ && s0[
                    oi
                ].ctx().ice_user is Some implies r.1@.contains(s0[oi].ctx().ice_user->0) by {
                assert(member_peers@.contains(s0[oi].ctx().id));
                assert(dragged(s0[oi], member_peers@));
            }
            assert forall|j: int| 0 <= j < self.peers@.len() implies (#[trigger] self.peers@[
                j
            ]).ctx().member_id@ != member_id@ by {
                let i = choose|i: int|
                    0 <= i < s0.len() && s0[i] == self.peers@[j] && !dragged(s0[i], member_peers@);
                if s0[i].ctx().member_id@ == member_id@ {
                    assert(member_peers@.contains(s0[i].ctx().id));
                }
            }
        }
        r
    }

    /// One member's share of a fresh peer pair, `Stable` and empty.
    fn fresh_peer(
        id: PeerId,
        member_id: MemberId,
        partner_peer: PeerId,
        partner_member: MemberId,
        is_force_relayed: bool,
    ) -> (r: PeerStateMachine)
        ensures
            r is Stable,
            r.ctx().id == id,
            r.ctx().member_id == member_id,
            r.ctx().partner_peer == partner_peer,
            r.ctx().partner_member == partner_member,
            r.ctx().is_force_relayed == is_force_relayed,
            r.ctx().ice_user is None,
            r.ctx().sdp_offer is None,
            r.ctx().sdp_answer is None,
            r.ctx().senders@ == Seq::<crate::track::MediaTrack>::empty(),
            r.ctx().receivers@ == Seq::<crate::track::MediaTrack>::empty(),
            !r.ctx().is_known_to_remote,
            r.ctx().pending_track_updates@ == Seq::<TrackChange>::empty(),
            r.ctx().track_changes_queue@ == Seq::<TrackChange>::empty(),
    {
        PeerStateMachine::Stable(
            Peer::<Stable>::new(id, member_id, partner_peer, partner_member, is_force_relayed),
        )
    }
}

/// Whether the vector holds the given peer ID.
#[verifier::loop_isolation(false)]
fn contains_pid(v: &Vec<PeerId>, id: PeerId) -> (r: bool)
    ensures
        r == v@.contains(id),
{
    let mut i: usize = 0;
    while i < v.len()
        invariant
            0 <= i <= v@.len(),
            forall|j: int| 0 <= j < i ==> v@[j] != id,
        decreases v@.len() - i,
    {
        if v[i].0 == id.0 {
            proof {
                assert(v@[i as int] == id);
            }
            return true;
        }
        i = i + 1;
    }
    proof {
        if v@.contains(id) {
            let w = choose|j: int| 0 <= j < v@.len() && v@[j] == id;
            assert(v@[w] == id);
        }
    }
    false
}


impl PeerRepository {
    /// Returns the index of the first peer of `member_id` paired with a
    /// peer of `partner_member_id`, if such a pair exists.
    #[verifier::loop_isolation(false)]
    fn find_pair_idx(&self, member_id: &MemberId, partner_member_id: &MemberId) -> (r: Option<
        usize,
    >)
        ensures
            match r {
                Some(i) => i as int == pair_idx(self.peers@, member_id@, partner_member_id@) && i
                    < self.peers@.len() && self.peers@[i as int].ctx().member_id@ == member_id@
                    && self.peers@[i as int].ctx().partner_member@ == partner_member_id@,
                None => pair_idx(self.peers@, member_id@, partner_member_id@) == -1,
            },
    {
        proof {
            lemma_pair_idx(self.peers@, member_id@, partner_member_id@);
        }
        let mut i: usize = 0;
        while i < self.peers.len()
            invariant
                0 <= i <= self.peers@.len(),
                forall|j: int| 0 <= j < i ==> !((#[trigger] self.peers@[j]).ctx().member_id@
                    == member_id@ && self.peers@[j].ctx().partner_member@
                    == partner_member_id@),
            decreases self.peers@.len() - i,
        {
            let mid = self.peers[i].member_id();
            let pmid = self.peers[i].partner_member_id();
            if mid.eq_id(member_id) && pmid.eq_id(partner_member_id) {
                return Some(i);
            }
            i = i + 1;
        }
        None
    }
}



/// The index of the first peer of `member` paired toward `partner_member`,
/// or `-1`.
pub open spec fn pair_idx(s: Seq<PeerStateMachine>, member: Seq<char>, partner_member: Seq<char>) -> int
    decreases s.len(),
{
    if s.len() == 0 {
        -1
    } else if s[0].ctx().member_id@ == member && s[0].ctx().partner_member@ == partner_member {
        0
    } else {
        let rest = pair_idx(s.subrange(1, s.len() as int), member, partner_member);
        if rest == -1 {
            -1
        } else {
            rest + 1
        }
    }
}

/// What [`pair_idx`] returns.
pub proof fn lemma_pair_idx(s: Seq<PeerStateMachine>, member: Seq<char>, partner_member: Seq<char>)
    ensures
        pair_idx(s, member, partner_member) >= -1,
        pair_idx(s, member, partner_member) == -1 ==> forall|j: int|
            0 <= j < s.len() ==> !((#[trigger] s[j]).ctx().member_id@ == member
                && s[j].ctx().partner_member@ == partner_member),
        pair_idx(s, member, partner_member) >= 0 ==> {
            &&& pair_idx(s, member, partner_member) < s.len()
            &&& s[pair_idx(s, member, partner_member)].ctx().member_id@ == member
            &&& s[pair_idx(s, member, partner_member)].ctx().partner_member@ == partner_member
            &&& forall|j: int| 0 <= j < pair_idx(s, member, partner_member) ==> !((
            #[trigger] s[j]).ctx().member_id@ == member && s[j].ctx().partner_member@
                == partner_member)
        },
    decreases s.len(),
{
    if s.len() > 0 && !(s[0].ctx().member_id@ == member && s[0].ctx().partner_member@
        == partner_member) {
        let rest = s.subrange(1, s.len() as int);
        lemma_pair_idx(rest, member, partner_member);
        let fr = pair_idx(rest, member, partner_member);
        if fr >= 0 {
            assert(s[fr + 1] == rest[fr]);
            assert forall|j: int|
                0 <= j < fr + 1 implies !((#[trigger] s[j]).ctx().member_id@ == member
                && s[j].ctx().partner_member@ == partner_member) by {
                if j >= 1 {
                    assert(rest[j - 1] == s[j]);
                }
            }
        } else {
            assert forall|j: int|
                0 <= j < s.len() implies !((#[trigger] s[j]).ctx().member_id@ == member
                && s[j].ctx().partner_member@ == partner_member) by {
                if j >= 1 {
                    assert(0 <= j - 1 < rest.len());
                    assert(!(rest[j - 1].ctx().member_id@ == member && rest[
                        j - 1
                    ].ctx().partner_member@ == partner_member));
                    assert(rest[j - 1] == s[j]);
                }
            }
        }
    }
}

/// Whether `p1` is `p0` with the send tracks of the publisher scheduled,
/// IDs counted from `start`.
pub open spec fn augmented_send(
    p0: PeerStateMachine,
    p1: PeerStateMachine,
    src: WebRtcPublishEndpoint,
    start: u32,
) -> bool {
    &&& crate::peer::same_variant(p1, p0)
    &&& p1.ctx() == (crate::peer::Context {
        track_changes_queue: p1.ctx().track_changes_queue,
        ..p0.ctx()
    })
    &&& p1.ctx().track_changes_queue@ == p0.ctx().track_changes_queue@ + publisher_tracks(
        src,
        start,
    ).map_values(|t: crate::track::MediaTrack| TrackChange::AddSendTrack(t))
}

/// Whether `p1` is `p0` with the matching receive tracks scheduled.
pub open spec fn augmented_recv(
    p0: PeerStateMachine,
    p1: PeerStateMachine,
    src: WebRtcPublishEndpoint,
    start: u32,
) -> bool {
    &&& crate::peer::same_variant(p1, p0)
    &&& p1.ctx() == (crate::peer::Context {
        track_changes_queue: p1.ctx().track_changes_queue,
        ..p0.ctx()
    })
    &&& p1.ctx().track_changes_queue@ == p0.ctx().track_changes_queue@ + publisher_tracks(
        src,
        start,
    ).map_values(|t: crate::track::MediaTrack| TrackChange::AddRecvTrack(t))
}

/// Whether a freshly created pair member looks as it must: `Stable`,
/// empty but for the scheduled tracks, credentialled, and linked to its
/// partner.
pub open spec fn fresh_pair_member(
    p: PeerStateMachine,
    id: PeerId,
    member: Seq<char>,
    partner_peer: PeerId,
    partner_member: Seq<char>,
    force_relay: bool,
    queue: Seq<TrackChange>,
) -> bool {
    &&& p is Stable
    &&& p.ctx().id == id
    &&& p.ctx().member_id@ == member
    &&& p.ctx().partner_peer == partner_peer
    &&& p.ctx().partner_member@ == partner_member
    &&& p.ctx().is_force_relayed == force_relay
    &&& p.ctx().ice_user is Some
    &&& p.ctx().sdp_offer is None
    &&& p.ctx().sdp_answer is None
    &&& p.ctx().senders@.len() == 0
    &&& p.ctx().receivers@.len() == 0
    &&& !p.ctx().is_known_to_remote
    &&& p.ctx().pending_track_updates@.len() == 0
    &&& p.ctx().track_changes_queue@ == queue
}

impl PeerRepository {
    /// Connects a publisher to a player.
    ///
    /// When a peer pair between the two owning members already exists, the
    /// publisher's tracks are scheduled onto it and no new peers appear.
    /// Otherwise a fresh `Stable` pair is created with the next two peer
    /// IDs, the publisher's tracks are scheduled, one TURN credential per
    /// peer is requested — under `ReturnErr`, so a failure is reported —
    /// and only then is the pair installed; on a TURN failure nothing is
    /// installed and the error surfaces. The room at rest stays at rest.
    #[verifier::loop_isolation(false)]
    #[verifier::rlimit(60)]
    pub fn connect_endpoints<T: TurnAuthService>(
        &mut self,
        src: &WebRtcPublishEndpoint,
        src_owner: &MemberId,
        sink: &WebRtcPlayEndpoint,
        sink_owner: &MemberId,
        turn: &mut T,
    ) -> (r: Result<Option<(PeerId, PeerId)>, RoomError>)
        requires
            old(self).peers_count.count + 2 <= u32::MAX,
            old(self).tracks_count.count + 3 <= u32::MAX,
        ensures
            final(self).room_id == old(self).room_id,
            ({
                // success is owed on the existing-pair path: there no
                // outside call decides
                let i0 = pair_idx(old(self).peers@, src_owner@, sink_owner@);
                let j0 = peer_idx(old(self).peers@, old(self).peers@[i0].ctx().partner_peer);
                i0 >= 0 && j0 >= 0 && j0 != i0 ==> (r matches Ok(v) && v is None)
            }),
            ({
                let i0 = pair_idx(old(self).peers@, src_owner@, sink_owner@);
                let j0 = peer_idx(old(self).peers@, old(self).peers@[i0].ctx().partner_peer);
                (r matches Err(e) && e is PeerNotFound) <==> (i0 >= 0 && (j0 == -1 || j0 == i0))
            }),
            match r {
                Ok(None) => {
                    let i0 = pair_idx(old(self).peers@, src_owner@, sink_owner@);
                    let j0 = peer_idx(old(self).peers@, old(self).peers@[i0].ctx().partner_peer);
                    &&& final(self).peers_count == old(self).peers_count
                    &&& final(self).tracks_count.count == old(self).tracks_count.count
                        + publisher_tracks(*src, old(self).tracks_count.count).len()
                    &&& 0 <= i0 < old(self).peers@.len()
                    &&& 0 <= j0 < old(self).peers@.len()
                    &&& i0 != j0
                    &&& final(self).peers@ == old(self).peers@.update(
                        i0,
                        final(self).peers@[i0],
                    ).update(j0, final(self).peers@[j0])
                    &&& augmented_send(
                        old(self).peers@[i0],
                        final(self).peers@[i0],
                        *src,
                        old(self).tracks_count.count,
                    )
                    &&& augmented_recv(
                        old(self).peers@[j0],
                        final(self).peers@[j0],
                        *src,
                        old(self).tracks_count.count,
                    )
                },
                Ok(Some(ids)) => {
                    let c0 = old(self).peers_count.count;
                    let tracks = publisher_tracks(*src, old(self).tracks_count.count);
                    &&& ids.0 == PeerId(c0)
                    &&& ids.1 == PeerId((c0 + 1) as u32)
                    &&& final(self).peers_count.count == c0 + 2
                    &&& final(self).tracks_count.count == old(self).tracks_count.count
                        + tracks.len()
                    &&& final(self).peers@.len() == old(self).peers@.len() + 2
                    &&& final(self).peers@.subrange(0, old(self).peers@.len() as int) == old(
                        self,
                    ).peers@
                    &&& fresh_pair_member(
                        final(self).peers@[old(self).peers@.len() as int],
                        ids.0,
                        src_owner@,
                        ids.1,
                        sink_owner@,
                        src.is_force_relayed,
                        tracks.map_values(
                            |t: crate::track::MediaTrack| TrackChange::AddSendTrack(t),
                        ),
                    )
                    &&& fresh_pair_member(
                        final(self).peers@[old(self).peers@.len() as int + 1],
                        ids.1,
                        sink_owner@,
                        ids.0,
                        src_owner@,
                        sink.is_force_relayed,
                        tracks.map_values(
                            |t: crate::track::MediaTrack| TrackChange::AddRecvTrack(t),
                        ),
                    )
                },
                Err(e) => {
                    &&& final(self).peers == old(self).peers
                    &&& final(self).tracks_count.count <= old(self).tracks_count.count + 3
                    &&& (e is TurnServiceErr ==> pair_idx(
                        old(self).peers@,
                        src_owner@,
                        sink_owner@,
                    ) == -1)
                    &&& (e is TurnServiceErr || e is PeerNotFound)
                },
            },
            (r matches Ok(Some(_))) ==> pair_idx(old(self).peers@, src_owner@, sink_owner@)
                == -1,
    {
        proof {
            lemma_pair_idx(self.peers@, src_owner@, sink_owner@);
        }
        match self.find_pair_idx(src_owner, sink_owner) {
            Some(i0) => {
                let sink_peer_id = self.peers[i0].partner_peer_id();
                let j0 = match self.find_peer(sink_peer_id) {
                    Some(j) => j,
                    None => {
                        return Err(RoomError::PeerNotFound(sink_peer_id));
                    },
                };
                if i0 == j0 {
                    return Err(RoomError::PeerNotFound(sink_peer_id));
                }
                let ghost s0 = self.peers@;
                let ghost start = self.tracks_count.count;
                if i0 < j0 {
                    let mut pj = self.peers.remove(j0);
                    let mut pi = self.peers.remove(i0);
                    pi.add_publisher(src, &mut pj, &mut self.tracks_count);
                    self.peers.insert(i0, pi);
                    self.peers.insert(j0, pj);
                } else {
                    let mut pi = self.peers.remove(i0);
                    let mut pj = self.peers.remove(j0);
                    pi.add_publisher(src, &mut pj, &mut self.tracks_count);
                    self.peers.insert(j0, pj);
                    self.peers.insert(i0, pi);
                }
                proof {
                    assert(self.peers@ =~= s0.update(i0 as int, self.peers@[i0 as int]).update(
                        j0 as int,
                        self.peers@[j0 as int],
                    ));
                    assert(augmented_send(s0[i0 as int], self.peers@[i0 as int], *src, start));
                    assert(augmented_recv(s0[j0 as int], self.peers@[j0 as int], *src, start));
                    assert(s0[i0 as int].ctx().member_id@ == src_owner@);
                    assert(s0[i0 as int].ctx().partner_member@ == sink_owner@);
                    assert(s0[j0 as int].ctx().id == s0[i0 as int].ctx().partner_peer);
                }
                Ok(None)
            },
            None => {
                let ghost s0 = self.peers@;
                let src_peer_id = PeerId(self.peers_count.next_id());
                let sink_peer_id = PeerId(self.peers_count.next_id());
                let mut first = Self::fresh_peer(
                    src_peer_id,
                    src_owner.clone_id(),
                    sink_peer_id,
                    sink_owner.clone_id(),
                    src.is_force_relayed,
                );
                let mut second = Self::fresh_peer(
                    sink_peer_id,
                    sink_owner.clone_id(),
                    src_peer_id,
                    src_owner.clone_id(),
                    sink.is_force_relayed,
                );
                first.add_publisher(src, &mut second, &mut self.tracks_count);
                let src_user = match turn.create_user(
                    &self.room_id,
                    src_peer_id,
                    UnreachablePolicy::ReturnErr,
                ) {
                    Ok(u) => u,
                    Err(e) => {
                        return Err(RoomError::TurnServiceErr(e));
                    },
                };
                let sink_user = match turn.create_user(
                    &self.room_id,
                    sink_peer_id,
                    UnreachablePolicy::ReturnErr,
                ) {
                    Ok(u) => u,
                    Err(e) => {
                        let mut gone: Vec<crate::ice::IceUser> = Vec::new();
                        gone.push(src_user);
                        let _ = turn.delete_users(gone);
                        return Err(RoomError::TurnServiceErr(e));
                    },
                };
                first.set_ice_user(src_user);
                second.set_ice_user(sink_user);
                self.add_peer(first);
                self.add_peer(second);
                proof {
                    assert(self.peers@.subrange(0, s0.len() as int) =~= s0);
                }
                Ok(Some((src_peer_id, sink_peer_id)))
            },
        }
    }
}


} // verus!
