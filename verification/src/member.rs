//! Members of a room: their credentials, their declarative endpoint graph,
//! and the loading of that graph from a room spec.

use vstd::prelude::*;

use crate::endpoint::{
    SrcUri, WebRtcPlayEndpoint, WebRtcPlaySpec, WebRtcPublishEndpoint, WebRtcPublishSpec,
};
use crate::errors::MembersLoadError;
use crate::ice::{servers_match, IceServer, IceUser};
use crate::ids::{EndpointId, MemberId, PeerId, RoomId};

verus! {

/// How many characters a generated member credential has.
pub const MEMBER_CREDENTIALS_LEN: usize = 32;

/// Whether the character is an ASCII letter or digit.
pub open spec fn is_ascii_alphanumeric_char(c: char) -> bool {
    ('0' <= c && c <= '9') || ('a' <= c && c <= 'z') || ('A' <= c && c <= 'Z')
}

/// Relies on rand's `Alphanumeric` distribution: `sample_string` draws from
/// the thread RNG and returns exactly `len` ASCII letters and digits.
#[verifier::external_body]
fn random_alphanumeric(len: usize) -> (s: String)
    ensures
        s@.len() == len as nat,
        forall|i: int| 0 <= i < s@.len() ==> is_ascii_alphanumeric_char(s@[i]),
{
    rand::distr::SampleString::sample_string(&rand::distr::Alphanumeric, &mut rand::rng(), len)
}

/// The declarative spec of one member: its endpoints and its credentials.
#[derive(Clone, Debug, PartialEq, Eq)]
pub struct MemberSpec {
    /// The member's publishers, in spec order.
    pub publish_endpoints: Vec<(EndpointId, WebRtcPublishSpec)>,
    /// The member's players, in spec order.
    pub play_endpoints: Vec<(EndpointId, WebRtcPlaySpec)>,
    /// The credentials the member authorizes with.
    pub credentials: String,
}

impl MemberSpec {
    /// A member spec with the given endpoints. A missing credential is
    /// replaced by a generated one of [`MEMBER_CREDENTIALS_LEN`] letters
    /// and digits.
    pub fn new(
        publish_endpoints: Vec<(EndpointId, WebRtcPublishSpec)>,
        play_endpoints: Vec<(EndpointId, WebRtcPlaySpec)>,
        credentials: Option<String>,
    ) -> (r: Self)
        ensures
            r.publish_endpoints == publish_endpoints,
            r.play_endpoints == play_endpoints,
            match credentials {
                Some(c) => r.credentials@ == c@,
                None => r.credentials@.len() == MEMBER_CREDENTIALS_LEN && forall|i: int|
                    0 <= i < r.credentials@.len() ==> is_ascii_alphanumeric_char(
                        r.credentials@[i],
                    ),
            },
    {
        let credentials = match credentials {
            Some(c) => c,
            None => random_alphanumeric(MEMBER_CREDENTIALS_LEN),
        };
        MemberSpec { publish_endpoints, play_endpoints, credentials }
    }

    /// The member's players.
    pub fn play_endpoints(&self) -> (r: &Vec<(EndpointId, WebRtcPlaySpec)>)
        ensures
            r == &self.play_endpoints,
    {
        &self.play_endpoints
    }

    /// The member's publishers.
    pub fn publish_endpoints(&self) -> (r: &Vec<(EndpointId, WebRtcPublishSpec)>)
        ensures
            r == &self.publish_endpoints,
    {
        &self.publish_endpoints
    }

    /// The member's credentials.
    pub fn credentials(&self) -> (r: &String)
        ensures
            r == &self.credentials,
    {
        &self.credentials
    }
}

/// The declarative spec of a room: its members, in spec order.
#[derive(Clone, Debug, PartialEq, Eq)]
pub struct RoomSpec {
    /// The room's ID.
    pub id: RoomId,
    /// The members, keyed by their IDs.
    pub members: Vec<(MemberId, MemberSpec)>,
}

impl RoomSpec {
    /// The room's ID.
    pub fn id(&self) -> (r: &RoomId)
        ensures
            r == &self.id,
    {
        &self.id
    }
}

/// A member of a room: credentials, the endpoint graph, and the TURN
/// credential of its session, when one is issued.
#[derive(Clone, Debug, PartialEq, Eq)]
pub struct Member {
    /// The member's ID.
    pub id: MemberId,
    /// The credentials the member authorizes with.
    pub credentials: String,
    /// The member's publishers.
    pub publishers: Vec<WebRtcPublishEndpoint>,
    /// The member's players.
    pub receivers: Vec<WebRtcPlayEndpoint>,
    /// The TURN credential of the member's session, when issued.
    pub ice_user: Option<IceUser>,
}

/// The index of the first member with the given ID, or `-1`.
pub open spec fn member_idx(ms: Seq<Member>, id: Seq<char>) -> int
    decreases ms.len(),
{
    if ms.len() == 0 {
        -1
    } else if ms[0].id@ == id {
        0
    } else {
        let rest = member_idx(ms.subrange(1, ms.len() as int), id);
        if rest == -1 {
            -1
        } else {
            rest + 1
        }
    }
}

/// What [`member_idx`] returns.
pub proof fn lemma_member_idx(ms: Seq<Member>, id: Seq<char>)
    ensures
        member_idx(ms, id) >= -1,
        member_idx(ms, id) == -1 ==> forall|j: int| 0 <= j < ms.len() ==> ms[j].id@ != id,
        member_idx(ms, id) >= 0 ==> {
            &&& member_idx(ms, id) < ms.len()
            &&& ms[member_idx(ms, id)].id@ == id
            &&& forall|j: int| 0 <= j < member_idx(ms, id) ==> ms[j].id@ != id
        },
    decreases ms.len(),
{
    if ms.len() > 0 && ms[0].id@ != id {
        let rest = ms.subrange(1, ms.len() as int);
        lemma_member_idx(rest, id);
        let fr = member_idx(rest, id);
        if fr >= 0 {
            assert(ms[fr + 1] == rest[fr]);
            assert forall|j: int| 0 <= j < fr + 1 implies ms[j].id@ != id by {
                if j >= 1 {
                    assert(rest[j - 1] == ms[j]);
                }
            }
        } else {
            assert forall|j: int| 0 <= j < ms.len() implies ms[j].id@ != id by {
                if j >= 1 {
                    assert(0 <= j - 1 < rest.len());
                    assert(rest[j - 1].id@ != id);
                    assert(rest[j - 1] == ms[j]);
                }
            }
        }
    }
}

/// The index of the first spec member with the given ID, or `-1`.
pub open spec fn spec_member_idx(ms: Seq<(MemberId, MemberSpec)>, id: Seq<char>) -> int
    decreases ms.len(),
{
    if ms.len() == 0 {
        -1
    } else if ms[0].0@ == id {
        0
    } else {
        let rest = spec_member_idx(ms.subrange(1, ms.len() as int), id);
        if rest == -1 {
            -1
        } else {
            rest + 1
        }
    }
}

/// What [`spec_member_idx`] returns.
pub proof fn lemma_spec_member_idx(ms: Seq<(MemberId, MemberSpec)>, id: Seq<char>)
    ensures
        spec_member_idx(ms, id) >= -1,
        spec_member_idx(ms, id) == -1 ==> forall|j: int| 0 <= j < ms.len() ==> ms[j].0@ != id,
        spec_member_idx(ms, id) >= 0 ==> {
            &&& spec_member_idx(ms, id) < ms.len()
            &&& ms[spec_member_idx(ms, id)].0@ == id
            &&& forall|j: int| 0 <= j < spec_member_idx(ms, id) ==> ms[j].0@ != id
        },
    decreases ms.len(),
{
    if ms.len() > 0 && ms[0].0@ != id {
        let rest = ms.subrange(1, ms.len() as int);
        lemma_spec_member_idx(rest, id);
        let fr = spec_member_idx(rest, id);
        if fr >= 0 {
            assert(ms[fr + 1] == rest[fr]);
            assert forall|j: int| 0 <= j < fr + 1 implies ms[j].0@ != id by {
                if j >= 1 {
                    assert(rest[j - 1] == ms[j]);
                }
            }
        } else {
            assert forall|j: int| 0 <= j < ms.len() implies ms[j].0@ != id by {
                if j >= 1 {
                    assert(0 <= j - 1 < rest.len());
                    assert(rest[j - 1].0@ != id);
                    assert(rest[j - 1] == ms[j]);
                }
            }
        }
    }
}

/// The index of the first publish spec with the given endpoint ID, or `-1`.
pub open spec fn publish_spec_idx(es: Seq<(EndpointId, WebRtcPublishSpec)>, id: Seq<char>) -> int
    decreases es.len(),
{
    if es.len() == 0 {
        -1
    } else if es[0].0@ == id {
        0
    } else {
        let rest = publish_spec_idx(es.subrange(1, es.len() as int), id);
        if rest == -1 {
            -1
        } else {
            rest + 1
        }
    }
}

/// What [`publish_spec_idx`] returns.
pub proof fn lemma_publish_spec_idx(es: Seq<(EndpointId, WebRtcPublishSpec)>, id: Seq<char>)
    ensures
        publish_spec_idx(es, id) >= -1,
        publish_spec_idx(es, id) == -1 ==> forall|j: int| 0 <= j < es.len() ==> es[j].0@ != id,
        publish_spec_idx(es, id) >= 0 ==> {
            &&& publish_spec_idx(es, id) < es.len()
            &&& es[publish_spec_idx(es, id)].0@ == id
        },
    decreases es.len(),
{
    if es.len() > 0 && es[0].0@ != id {
        let rest = es.subrange(1, es.len() as int);
        lemma_publish_spec_idx(rest, id);
        let fr = publish_spec_idx(rest, id);
        if fr >= 0 {
            assert(es[fr + 1] == rest[fr]);
        } else {
            assert forall|j: int| 0 <= j < es.len() implies es[j].0@ != id by {
                if j >= 1 {
                    assert(0 <= j - 1 < rest.len());
                    assert(rest[j - 1].0@ != id);
                    assert(rest[j - 1] == es[j]);
                }
            }
        }
    }
}

/// Whether a play spec names a source that the room spec provides: its
/// member exists and that member's spec holds the named publish endpoint.
pub open spec fn play_src_ok(ms: Seq<(MemberId, MemberSpec)>, p: WebRtcPlaySpec) -> bool {
    let mi = spec_member_idx(ms, p.src.member_id@);
    &&& mi >= 0
    &&& publish_spec_idx(ms[mi].1.publish_endpoints@, p.src.endpoint_id@) >= 0
}

/// Whether every play endpoint of the room spec has its source.
pub open spec fn loads_ok(ms: Seq<(MemberId, MemberSpec)>) -> bool {
    forall|i: int, j: int|
        0 <= i < ms.len() && 0 <= j < ms[i].1.play_endpoints@.len() ==> play_src_ok(
            ms,
            #[trigger] ms[i].1.play_endpoints@[j].1,
        )
}

/// The play endpoint a play spec becomes: unbound, with the spec's source.
pub open spec fn play_of(id: EndpointId, p: WebRtcPlaySpec) -> WebRtcPlayEndpoint {
    WebRtcPlayEndpoint { id, src: p.src, is_force_relayed: p.force_relay, peer_id: None }
}

/// The plays of one member's spec, up to `n`, that source from the given
/// publisher, as (owner, play endpoint) references, in spec order.
pub open spec fn refs_in_member(
    m: (MemberId, MemberSpec),
    owner: Seq<char>,
    ep: Seq<char>,
    n: int,
) -> Seq<(MemberId, EndpointId)>
    decreases n,
{
    if n <= 0 {
        Seq::empty()
    } else {
        let prev = refs_in_member(m, owner, ep, n - 1);
        let play = m.1.play_endpoints@[n - 1];
        if play.1.src.member_id@ == owner && play.1.src.endpoint_id@ == ep {
            prev.push((m.0, play.0))
        } else {
            prev
        }
    }
}

/// The references to the given publisher from the first `n` members of the
/// spec, in spec order.
pub open spec fn refs_upto(
    ms: Seq<(MemberId, MemberSpec)>,
    owner: Seq<char>,
    ep: Seq<char>,
    n: int,
) -> Seq<(MemberId, EndpointId)>
    decreases n,
{
    if n <= 0 {
        Seq::empty()
    } else {
        refs_upto(ms, owner, ep, n - 1) + refs_in_member(
            ms[n - 1],
            owner,
            ep,
            ms[n - 1].1.play_endpoints@.len() as int,
        )
    }
}

/// All references the room spec makes to the given publisher.
pub open spec fn refs_of(
    ms: Seq<(MemberId, MemberSpec)>,
    owner: Seq<char>,
    ep: Seq<char>,
) -> Seq<(MemberId, EndpointId)> {
    refs_upto(ms, owner, ep, ms.len() as int)
}

/// Whether a built publish endpoint matches what its spec prescribes.
pub open spec fn publisher_matches(
    e: WebRtcPublishEndpoint,
    ms: Seq<(MemberId, MemberSpec)>,
    owner: Seq<char>,
    id: Seq<char>,
    p: WebRtcPublishSpec,
) -> bool {
    &&& e.id@ == id
    &&& e.p2p == p.p2p
    &&& e.audio_settings == p.audio_settings
    &&& e.video_settings == p.video_settings
    &&& e.is_force_relayed == p.force_relay
    &&& e.peer_ids@ == Seq::<PeerId>::empty()
    &&& e.receivers@.len() == refs_of(ms, owner, id).len()
    &&& forall|k: int| 0 <= k < e.receivers@.len() ==> e.receivers@[k].0@ == refs_of(
        ms,
        owner,
        id,
    )[k].0@ && e.receivers@[k].1@ == refs_of(ms, owner, id)[k].1@
}

/// Collects the references the room spec makes to the given publisher.
#[verifier::loop_isolation(false)]
fn collect_refs(
    ms: &Vec<(MemberId, MemberSpec)>,
    owner: &MemberId,
    ep: &EndpointId,
) -> (r: Vec<(MemberId, EndpointId)>)
    ensures
        r@.len() == refs_of(ms@, owner@, ep@).len(),
        forall|k: int| 0 <= k < r@.len() ==> r@[k].0@ == refs_of(ms@, owner@, ep@)[k].0@ && r@[
            k
        ].1@ == refs_of(ms@, owner@, ep@)[k].1@,
        forall|k: int| 0 <= k < r@.len() ==> r@[k] == refs_of(ms@, owner@, ep@)[k],
{
    let mut out: Vec<(MemberId, EndpointId)> = Vec::new();
    let mut mi: usize = 0;
    while mi < ms.len()
        invariant
            0 <= mi <= ms@.len(),
            out@ == refs_upto(ms@, owner@, ep@, mi as int),
        decreases ms@.len() - mi,
    {
        let plays = &ms[mi].1.play_endpoints;
        let mut pj: usize = 0;
        while pj < plays.len()
            invariant
                0 <= pj <= plays@.len(),
                plays == &ms@[mi as int].1.play_endpoints,
                0 <= mi < ms@.len(),
                out@ == refs_upto(ms@, owner@, ep@, mi as int) + refs_in_member(
                    ms@[mi as int],
                    owner@,
                    ep@,
                    pj as int,
                ),
            decreases plays@.len() - pj,
        {
            let play = &plays[pj];
            if play.1.src.member_id.eq_id(owner) && play.1.src.endpoint_id.eq_id(ep) {
                out.push((ms[mi].0.clone_id(), play.0.clone_id()));
            }
            pj = pj + 1;
        }
        mi = mi + 1;
    }
    proof {
        assert(out@ == refs_of(ms@, owner@, ep@));
    }
    out
}

impl Member {
    /// A member with no endpoints and no TURN credential yet.
    pub fn new(id: MemberId, credentials: String) -> (r: Self)
        ensures
            r.id == id,
            r.credentials == credentials,
            r.publishers@ == Seq::<WebRtcPublishEndpoint>::empty(),
            r.receivers@ == Seq::<WebRtcPlayEndpoint>::empty(),
            r.ice_user is None,
    {
        Member { id, credentials, publishers: Vec::new(), receivers: Vec::new(), ice_user: None }
    }

    /// The member's ID.
    pub fn id(&self) -> (r: MemberId)
        ensures
            r == self.id,
    {
        self.id.clone_id()
    }

    /// The member's credentials.
    pub fn credentials(&self) -> (r: &String)
        ensures
            r == &self.credentials,
    {
        &self.credentials
    }

    /// The servers list of the member's TURN credential, when one is
    /// issued.
    pub fn servers_list(&self) -> (r: Option<Vec<IceServer>>)
        ensures
            match self.ice_user {
                Some(u) => r matches Some(v) && servers_match(v@, u),
                None => r is None,
            },
    {
        match &self.ice_user {
            Some(u) => Some(u.servers_list()),
            None => None,
        }
    }

    /// Takes the TURN credential off the member, for release.
    pub fn take_ice_user(&mut self) -> (r: Option<IceUser>)
        ensures
            *final(self) == (Member { ice_user: None::<IceUser>, ..*old(self) }),
            r == old(self).ice_user,
    {
        self.ice_user.take()
    }

    /// Replaces the member's TURN credential, returning the prior one.
    pub fn replace_ice_user(&mut self, new_ice_user: IceUser) -> (r: Option<IceUser>)
        ensures
            *final(self) == (Member { ice_user: Some(new_ice_user), ..*old(self) }),
            r == old(self).ice_user,
    {
        let prior = self.ice_user.take();
        self.ice_user = Some(new_ice_user);
        prior
    }

    /// Adds a player to the member.
    pub fn insert_receiver(&mut self, endpoint: WebRtcPlayEndpoint)
        ensures
            *final(self) == (Member { receivers: final(self).receivers, ..*old(self) }),
            final(self).receivers@ == old(self).receivers@.push(endpoint),
    {
        self.receivers.push(endpoint);
    }

    /// Adds a publisher to the member.
    pub fn insert_publisher(&mut self, endpoint: WebRtcPublishEndpoint)
        ensures
            *final(self) == (Member { publishers: final(self).publishers, ..*old(self) }),
            final(self).publishers@ == old(self).publishers@.push(endpoint),
    {
        self.publishers.push(endpoint);
    }

    /// Looks a publisher up by its endpoint ID.
    pub fn get_publisher_by_id(&self, id: &EndpointId) -> (r: Option<&WebRtcPublishEndpoint>)
        ensures
            match r {
                Some(e) => exists|i: int|
                    0 <= i < self.publishers@.len() && self.publishers@[i] == *e && e.id@ == id@,
                None => forall|i: int| 0 <= i < self.publishers@.len()
                    ==> self.publishers@[i].id@ != id@,
            },
    {
        let mut i: usize = 0;
        while i < self.publishers.len()
            invariant
                0 <= i <= self.publishers@.len(),
                forall|j: int| 0 <= j < i ==> self.publishers@[j].id@ != id@,
            decreases self.publishers@.len() - i,
        {
            if self.publishers[i].id.eq_id(id) {
                return Some(&self.publishers[i]);
            }
            i = i + 1;
        }
        None
    }

    /// Looks a player up by its endpoint ID.
    pub fn get_receiver_by_id(&self, id: &EndpointId) -> (r: Option<&WebRtcPlayEndpoint>)
        ensures
            match r {
                Some(e) => exists|i: int|
                    0 <= i < self.receivers@.len() && self.receivers@[i] == *e && e.id@ == id@,
                None => forall|i: int| 0 <= i < self.receivers@.len()
                    ==> self.receivers@[i].id@ != id@,
            },
    {
        let mut i: usize = 0;
        while i < self.receivers.len()
            invariant
                0 <= i <= self.receivers@.len(),
                forall|j: int| 0 <= j < i ==> self.receivers@[j].id@ != id@,
            decreases self.receivers@.len() - i,
        {
            if self.receivers[i].id.eq_id(id) {
                return Some(&self.receivers[i]);
            }
            i = i + 1;
        }
        None
    }
}

/// Builds the member graph of a room spec: one member per spec entry, its
/// publishers carrying the references of every play endpoint that names
/// them, its players unbound.
///
/// Succeeds exactly when every play endpoint's source member exists and
/// that member's spec holds the named publish endpoint; otherwise the
/// missing element is reported.
#[verifier::loop_isolation(false)]
pub fn parse_participants(room_spec: &RoomSpec) -> (r: Result<Vec<Member>, MembersLoadError>)
    ensures
        r is Ok <==> loads_ok(room_spec.members@),
        match r {
            Ok(members) => {
                &&& members@.len() == room_spec.members@.len()
                &&& forall|i: int| 0 <= i < members@.len() ==> {
                    let m = #[trigger] members@[i];
                    let sp = room_spec.members@[i];
                    &&& m.id@ == sp.0@
                    &&& m.credentials@ == sp.1.credentials@
                    &&& m.ice_user is None
                    &&& m.receivers@.len() == sp.1.play_endpoints@.len()
                    &&& (forall|j: int| 0 <= j < m.receivers@.len() ==> {
                        let play = #[trigger] m.receivers@[j];
                        let ps = sp.1.play_endpoints@[j];
                        &&& play.id@ == ps.0@
                        &&& play.src.member_id@ == ps.1.src.member_id@
                        &&& play.src.endpoint_id@ == ps.1.src.endpoint_id@
                        &&& play.src.room_id@ == ps.1.src.room_id@
                        &&& play.is_force_relayed == ps.1.force_relay
                        &&& play.peer_id is None
                    })
                    &&& m.publishers@.len() == sp.1.publish_endpoints@.len()
                    &&& (forall|j: int| 0 <= j < m.publishers@.len() ==> publisher_matches(
                        #[trigger] m.publishers@[j],
                        room_spec.members@,
                        sp.0@,
                        sp.1.publish_endpoints@[j].0@,
                        sp.1.publish_endpoints@[j].1,
                    ))
                }
            },
            Err(e) => match e {
                MembersLoadError::MemberNotFound(id) => exists|i: int, j: int|
                    0 <= i < room_spec.members@.len() && 0 <= j
                        < room_spec.members@[i].1.play_endpoints@.len()
                        && #[trigger] room_spec.members@[i].1.play_endpoints@[j].1.src.member_id@
                        == id@ && spec_member_idx(room_spec.members@, id@) == -1,
                MembersLoadError::PublishEndpointNotFound(_) => !loads_ok(room_spec.members@),
                _ => false,
            },
        },
{
    let ms = &room_spec.members;
    let mut i: usize = 0;
    while i < ms.len()
        invariant
            0 <= i <= ms@.len(),
            forall|i2: int, j2: int|
                0 <= i2 < i && 0 <= j2 < ms@[i2].1.play_endpoints@.len() ==> play_src_ok(
                    ms@,
                    #[trigger] ms@[i2].1.play_endpoints@[j2].1,
                ),
        decreases ms@.len() - i,
    {
        let plays = &ms[i].1.play_endpoints;
        let mut j: usize = 0;
        while j < plays.len()
            invariant
                0 <= j <= plays@.len(),
                plays == &ms@[i as int].1.play_endpoints,
                0 <= i < ms@.len(),
                forall|j2: int| 0 <= j2 < j ==> play_src_ok(
                    ms@,
                    #[trigger] plays@[j2].1,
                ),
            decreases plays@.len() - j,
        {
            let src = &plays[j].1.src;
            proof {
                lemma_spec_member_idx(ms@, src.member_id@);
            }
            match find_spec_member(ms, &src.member_id) {
                Some(mi) => {
                    proof {
                        lemma_publish_spec_idx(
                            ms@[mi as int].1.publish_endpoints@,
                            src.endpoint_id@,
                        );
                    }
                    if !has_publish_spec(&ms[mi].1.publish_endpoints, &src.endpoint_id) {
                        proof {
                            assert(!play_src_ok(ms@, ms@[i as int].1.play_endpoints@[j as int].1));
                            assert(!loads_ok(ms@));
                        }
                        return Err(
                            MembersLoadError::PublishEndpointNotFound(src.endpoint_id.clone_id()),
                        );
                    }
                },
                None => {
                    proof {
                        assert(!play_src_ok(ms@, ms@[i as int].1.play_endpoints@[j as int].1));
                        assert(!loads_ok(ms@));
                    }
                    return Err(MembersLoadError::MemberNotFound(src.member_id.clone_id()));
                },
            }
            j = j + 1;
        }
        i = i + 1;
    }
    proof {
        assert(loads_ok(ms@));
    }
    let mut members: Vec<Member> = Vec::new();
    let mut k: usize = 0;
    while k < ms.len()
        invariant
            0 <= k <= ms@.len(),
            members@.len() == k,
            forall|i2: int| 0 <= i2 < k ==> {
                let m = #[trigger] members@[i2];
                let sp = ms@[i2];
                &&& m.id@ == sp.0@
                &&& m.credentials@ == sp.1.credentials@
                &&& m.ice_user is None
                &&& m.receivers@.len() == sp.1.play_endpoints@.len()
                &&& (forall|j2: int| 0 <= j2 < m.receivers@.len() ==> {
                    let play = #[trigger] m.receivers@[j2];
                    let ps = sp.1.play_endpoints@[j2];
                    &&& play.id@ == ps.0@
                    &&& play.src.member_id@ == ps.1.src.member_id@
                    &&& play.src.endpoint_id@ == ps.1.src.endpoint_id@
                    &&& play.src.room_id@ == ps.1.src.room_id@
                    &&& play.is_force_relayed == ps.1.force_relay
                    &&& play.peer_id is None
                })
                &&& m.publishers@.len() == sp.1.publish_endpoints@.len()
                &&& (forall|j2: int| 0 <= j2 < m.publishers@.len() ==> publisher_matches(
                    #[trigger] m.publishers@[j2],
                    ms@,
                    sp.0@,
                    sp.1.publish_endpoints@[j2].0@,
                    sp.1.publish_endpoints@[j2].1,
                ))
            },
        decreases ms@.len() - k,
    {
        let member_id = ms[k].0.clone_id();
        let mut member = Member::new(member_id, ms[k].1.credentials.clone());
        let pubs = &ms[k].1.publish_endpoints;
        let mut pj: usize = 0;
        while pj < pubs.len()
            invariant
                0 <= pj <= pubs@.len(),
                pubs == &ms@[k as int].1.publish_endpoints,
                0 <= k < ms@.len(),
                member.id@ == ms@[k as int].0@,
                member.credentials@ == ms@[k as int].1.credentials@,
                member.ice_user is None,
                member.receivers@.len() == 0,
                member.publishers@.len() == pj,
                forall|j2: int| 0 <= j2 < pj ==> publisher_matches(
                    #[trigger] member.publishers@[j2],
                    ms@,
                    ms@[k as int].0@,
                    pubs@[j2].0@,
                    pubs@[j2].1,
                ),
            decreases pubs@.len() - pj,
        {
            let receivers = collect_refs(ms, &ms[k].0, &pubs[pj].0);
            let e = WebRtcPublishEndpoint {
                id: pubs[pj].0.clone_id(),
                p2p: pubs[pj].1.p2p,
                audio_settings: pubs[pj].1.audio_settings,
                video_settings: pubs[pj].1.video_settings,
                is_force_relayed: pubs[pj].1.force_relay,
                peer_ids: Vec::new(),
                receivers,
            };
            member.insert_publisher(e);
            pj = pj + 1;
        }
        let plays = &ms[k].1.play_endpoints;
        let mut qj: usize = 0;
        while qj < plays.len()
            invariant
                0 <= qj <= plays@.len(),
                plays == &ms@[k as int].1.play_endpoints,
                pubs == &ms@[k as int].1.publish_endpoints,
                0 <= k < ms@.len(),
                member.id@ == ms@[k as int].0@,
                member.credentials@ == ms@[k as int].1.credentials@,
                member.ice_user is None,
                member.publishers@.len() == pubs@.len(),
                forall|j2: int| 0 <= j2 < member.publishers@.len() ==> publisher_matches(
                    #[trigger] member.publishers@[j2],
                    ms@,
                    ms@[k as int].0@,
                    pubs@[j2].0@,
                    pubs@[j2].1,
                ),
                member.receivers@.len() == qj,
                forall|j2: int| 0 <= j2 < qj ==> {
                    let play = #[trigger] member.receivers@[j2];
                    let ps = plays@[j2];
                    &&& play.id@ == ps.0@
                    &&& play.src.member_id@ == ps.1.src.member_id@
                    &&& play.src.endpoint_id@ == ps.1.src.endpoint_id@
                    &&& play.src.room_id@ == ps.1.src.room_id@
                    &&& play.is_force_relayed == ps.1.force_relay
                    &&& play.peer_id is None
                },
            decreases plays@.len() - qj,
        {
            let e = WebRtcPlayEndpoint {
                id: plays[qj].0.clone_id(),
                src: plays[qj].1.src.clone_uri(),
                is_force_relayed: plays[qj].1.force_relay,
                peer_id: None,
            };
            member.insert_receiver(e);
            qj = qj + 1;
        }
        members.push(member);
        k = k + 1;
    }
    Ok(members)
}

/// Returns the index of the first spec member with the given ID, if any.
#[verifier::loop_isolation(false)]
fn find_spec_member(ms: &Vec<(MemberId, MemberSpec)>, id: &MemberId) -> (r: Option<usize>)
    ensures
        match r {
            Some(i) => i as int == spec_member_idx(ms@, id@) && i < ms@.len() && ms@[i as int].0@
                == id@,
            None => spec_member_idx(ms@, id@) == -1,
        },
{
    proof {
        lemma_spec_member_idx(ms@, id@);
    }
    let mut i: usize = 0;
    while i < ms.len()
        invariant
            0 <= i <= ms@.len(),
            forall|j: int| 0 <= j < i ==> ms@[j].0@ != id@,
        decreases ms@.len() - i,
    {
        if ms[i].0.eq_id(id) {
            return Some(i);
        }
        i = i + 1;
    }
    None
}

/// Whether the publish specs hold the given endpoint ID.
#[verifier::loop_isolation(false)]
fn has_publish_spec(es: &Vec<(EndpointId, WebRtcPublishSpec)>, id: &EndpointId) -> (r: bool)
    ensures
        r == (publish_spec_idx(es@, id@) >= 0),
{
    proof {
        lemma_publish_spec_idx(es@, id@);
    }
    let mut i: usize = 0;
    while i < es.len()
        invariant
            0 <= i <= es@.len(),
            forall|j: int| 0 <= j < i ==> es@[j].0@ != id@,
        decreases es@.len() - i,
    {
        if es[i].0.eq_id(id) {
            return true;
        }
        i = i + 1;
    }
    false
}


/// The peer IDs that survive removing the given ones, in order.
pub open spec fn ids_without(s: Seq<PeerId>, removed: Seq<PeerId>, n: int) -> Seq<PeerId>
    decreases n,
{
    if n <= 0 {
        Seq::empty()
    } else {
        let prev = ids_without(s, removed, n - 1);
        if removed.contains(s[n - 1]) {
            prev
        } else {
            prev.push(s[n - 1])
        }
    }
}

/// The publishers that survive removing the given endpoint ID, in order.
pub open spec fn pubs_without(
    s: Seq<WebRtcPublishEndpoint>,
    id: Seq<char>,
    n: int,
) -> Seq<WebRtcPublishEndpoint>
    decreases n,
{
    if n <= 0 {
        Seq::empty()
    } else {
        let prev = pubs_without(s, id, n - 1);
        if s[n - 1].id@ == id {
            prev
        } else {
            prev.push(s[n - 1])
        }
    }
}

/// The players that survive removing those sourced from the given
/// publisher, in order.
pub open spec fn plays_without_src(
    s: Seq<WebRtcPlayEndpoint>,
    owner: Seq<char>,
    ep: Seq<char>,
    n: int,
) -> Seq<WebRtcPlayEndpoint>
    decreases n,
{
    if n <= 0 {
        Seq::empty()
    } else {
        let prev = plays_without_src(s, owner, ep, n - 1);
        if s[n - 1].src.member_id@ == owner && s[n - 1].src.endpoint_id@ == ep {
            prev
        } else {
            prev.push(s[n - 1])
        }
    }
}

/// The players that survive removing the given endpoint ID, in order.
pub open spec fn plays_without_id(
    s: Seq<WebRtcPlayEndpoint>,
    id: Seq<char>,
    n: int,
) -> Seq<WebRtcPlayEndpoint>
    decreases n,
{
    if n <= 0 {
        Seq::empty()
    } else {
        let prev = plays_without_id(s, id, n - 1);
        if s[n - 1].id@ == id {
            prev
        } else {
            prev.push(s[n - 1])
        }
    }
}

/// The receiver references that survive removing the given player, in
/// order.
pub open spec fn refs_without(
    s: Seq<(MemberId, EndpointId)>,
    owner: Seq<char>,
    id: Seq<char>,
    n: int,
) -> Seq<(MemberId, EndpointId)>
    decreases n,
{
    if n <= 0 {
        Seq::empty()
    } else {
        let prev = refs_without(s, owner, id, n - 1);
        if s[n - 1].0@ == owner && s[n - 1].1@ == id {
            prev
        } else {
            prev.push(s[n - 1])
        }
    }
}

/// Whether the vector holds the given peer ID.
#[verifier::loop_isolation(false)]
fn contains_peer_id(v: &Vec<PeerId>, id: PeerId) -> (r: bool)
    ensures
        r == v@.contains(id),
{
    let mut i: usize = 0;
    while i < v.len()
        invariant
            0 <= i <= v@.len(),
            forall|j: int| 0 <= j < i ==> v@[j] != id,
        decreases v@.len() - i,
    {
        if v[i].0 == id.0 {
            proof {
                assert(v@[i as int] == id);
            }
            return true;
        }
        i = i + 1;
    }
    proof {
        if v@.contains(id) {
            let w = choose|j: int| 0 <= j < v@.len() && v@[j] == id;
            assert(v@[w] == id);
        }
    }
    false
}

/// Drops in place every player sourced from the given publisher.
#[verifier::loop_isolation(false)]
fn drop_plays_with_src(v: &mut Vec<WebRtcPlayEndpoint>, owner: &MemberId, ep: &EndpointId)
    ensures
        final(v)@ == plays_without_src(old(v)@, owner@, ep@, old(v)@.len() as int),
{
    let ghost s0 = v@;
    let mut i: usize = 0;
    while i < v.len()
        invariant
            v@.len() <= s0.len(),
            i <= v@.len(),
            ({
                let done = i + (s0.len() - v@.len());
                &&& done <= s0.len()
                &&& v@ == plays_without_src(s0, owner@, ep@, done as int) + s0.subrange(
                    done as int,
                    s0.len() as int,
                )
                &&& i as int == plays_without_src(s0, owner@, ep@, done as int).len()
            }),
        decreases v@.len() - i,
    {
        let ghost done = i + (s0.len() - v@.len());
        proof {
            assert(v@[i as int] == s0[done as int]);
        }
        if v[i].src.member_id.eq_id(owner) && v[i].src.endpoint_id.eq_id(ep) {
            v.remove(i);
            proof {
                assert(v@ =~= plays_without_src(s0, owner@, ep@, done as int + 1) + s0.subrange(
                    done as int + 1,
                    s0.len() as int,
                ));
            }
        } else {
            proof {
                assert(v@ =~= plays_without_src(s0, owner@, ep@, done as int + 1) + s0.subrange(
                    done as int + 1,
                    s0.len() as int,
                ));
            }
            i = i + 1;
        }
    }
    proof {
        let done = i + (s0.len() - v@.len());
        assert(done == s0.len());
        assert(v@ =~= plays_without_src(s0, owner@, ep@, s0.len() as int));
    }
}

/// Drops in place every player with the given endpoint ID.
#[verifier::loop_isolation(false)]
fn drop_plays_with_id(v: &mut Vec<WebRtcPlayEndpoint>, id: &EndpointId)
    ensures
        final(v)@ == plays_without_id(old(v)@, id@, old(v)@.len() as int),
{
    let ghost s0 = v@;
    let mut i: usize = 0;
    while i < v.len()
        invariant
            v@.len() <= s0.len(),
            i <= v@.len(),
            ({
                let done = i + (s0.len() - v@.len());
                &&& done <= s0.len()
                &&& v@ == plays_without_id(s0, id@, done as int) + s0.subrange(
                    done as int,
                    s0.len() as int,
                )
                &&& i as int == plays_without_id(s0, id@, done as int).len()
            }),
        decreases v@.len() - i,
    {
        let ghost done = i + (s0.len() - v@.len());
        proof {
            assert(v@[i as int] == s0[done as int]);
        }
        if v[i].id.eq_id(id) {
            v.remove(i);
            proof {
                assert(v@ =~= plays_without_id(s0, id@, done as int + 1) + s0.subrange(
                    done as int + 1,
                    s0.len() as int,
                ));
            }
        } else {
            proof {
                assert(v@ =~= plays_without_id(s0, id@, done as int + 1) + s0.subrange(
                    done as int + 1,
                    s0.len() as int,
                ));
            }
            i = i + 1;
        }
    }
    proof {
        assert(v@ =~= plays_without_id(s0, id@, s0.len() as int));
    }
}

/// Drops in place every publisher with the given endpoint ID.
#[verifier::loop_isolation(false)]
fn drop_pubs_with_id(v: &mut Vec<WebRtcPublishEndpoint>, id: &EndpointId)
    ensures
        final(v)@ == pubs_without(old(v)@, id@, old(v)@.len() as int),
{
    let ghost s0 = v@;
    let mut i: usize = 0;
    while i < v.len()
        invariant
            v@.len() <= s0.len(),
            i <= v@.len(),
            ({
                let done = i + (s0.len() - v@.len());
                &&& done <= s0.len()
                &&& v@ == pubs_without(s0, id@, done as int) + s0.subrange(
                    done as int,
                    s0.len() as int,
                )
                &&& i as int == pubs_without(s0, id@, done as int).len()
            }),
        decreases v@.len() - i,
    {
        let ghost done = i + (s0.len() - v@.len());
        proof {
            assert(v@[i as int] == s0[done as int]);
        }
        if v[i].id.eq_id(id) {
            v.remove(i);
            proof {
                assert(v@ =~= pubs_without(s0, id@, done as int + 1) + s0.subrange(
                    done as int + 1,
                    s0.len() as int,
                ));
            }
        } else {
            proof {
                assert(v@ =~= pubs_without(s0, id@, done as int + 1) + s0.subrange(
                    done as int + 1,
                    s0.len() as int,
                ));
            }
            i = i + 1;
        }
    }
    proof {
        assert(v@ =~= pubs_without(s0, id@, s0.len() as int));
    }
}

/// Drops in place every reference to the given player.
#[verifier::loop_isolation(false)]
fn drop_refs_to(v: &mut Vec<(MemberId, EndpointId)>, owner: &MemberId, id: &EndpointId)
    ensures
        final(v)@ == refs_without(old(v)@, owner@, id@, old(v)@.len() as int),
{
    let ghost s0 = v@;
    let mut i: usize = 0;
    while i < v.len()
        invariant
            v@.len() <= s0.len(),
            i <= v@.len(),
            ({
                let done = i + (s0.len() - v@.len());
                &&& done <= s0.len()
                &&& v@ == refs_without(s0, owner@, id@, done as int) + s0.subrange(
                    done as int,
                    s0.len() as int,
                )
                &&& i as int == refs_without(s0, owner@, id@, done as int).len()
            }),
        decreases v@.len() - i,
    {
        let ghost done = i + (s0.len() - v@.len());
        proof {
            assert(v@[i as int] == s0[done as int]);
        }
        if v[i].0.eq_id(owner) && v[i].1.eq_id(id) {
            v.remove(i);
            proof {
                assert(v@ =~= refs_without(s0, owner@, id@, done as int + 1) + s0.subrange(
                    done as int + 1,
                    s0.len() as int,
                ));
            }
        } else {
            proof {
                assert(v@ =~= refs_without(s0, owner@, id@, done as int + 1) + s0.subrange(
                    done as int + 1,
                    s0.len() as int,
                ));
            }
            i = i + 1;
        }
    }
    proof {
        assert(v@ =~= refs_without(s0, owner@, id@, s0.len() as int));
    }
}

impl Member {
    /// Forgets the given peers: the publishers drop their bindings to them
    /// and any player bound to one of them becomes unbound again.
    #[verifier::loop_isolation(false)]
    pub fn peers_removed(&mut self, peer_ids: &Vec<PeerId>)
        ensures
            *final(self) == (Member {
                publishers: final(self).publishers,
                receivers: final(self).receivers,
                ..*old(self)
            }),
            final(self).publishers@.len() == old(self).publishers@.len(),
            forall|k: int| 0 <= k < final(self).publishers@.len() ==> {
                let p1 = #[trigger] final(self).publishers@[k];
                let p0 = old(self).publishers@[k];
                &&& p1 == (WebRtcPublishEndpoint { peer_ids: p1.peer_ids, ..p0 })
                &&& p1.peer_ids@ == ids_without(
                    p0.peer_ids@,
                    peer_ids@,
                    p0.peer_ids@.len() as int,
                )
            },
            final(self).receivers@.len() == old(self).receivers@.len(),
            forall|k: int| 0 <= k < final(self).receivers@.len() ==> {
                let r1 = #[trigger] final(self).receivers@[k];
                let r0 = old(self).receivers@[k];
                if r0.peer_id matches Some(p) && peer_ids@.contains(p) {
                    r1 == (WebRtcPlayEndpoint { peer_id: None::<PeerId>, ..r0 })
                } else {
                    r1 == r0
                }
            },
    {
        let mut k: usize = 0;
        while k < self.publishers.len()
            invariant
                0 <= k <= self.publishers@.len(),
                *self == (Member { publishers: self.publishers, ..*old(self) }),
                self.publishers@.len() == old(self).publishers@.len(),
                forall|j: int| 0 <= j < k ==> {
                    let p1 = #[trigger] self.publishers@[j];
                    let p0 = old(self).publishers@[j];
                    &&& p1 == (WebRtcPublishEndpoint { peer_ids: p1.peer_ids, ..p0 })
                    &&& p1.peer_ids@ == ids_without(
                        p0.peer_ids@,
                        peer_ids@,
                        p0.peer_ids@.len() as int,
                    )
                },
                forall|j: int| k <= j < self.publishers@.len() ==> #[trigger] self.publishers@[j]
                    == old(self).publishers@[j],
            decreases self.publishers@.len() - k,
        {
            let mut p = self.publishers.remove(k);
            let ghost ids0 = p.peer_ids@;
            let mut kept: Vec<PeerId> = Vec::new();
            let mut i: usize = 0;
            while i < p.peer_ids.len()
                invariant
                    0 <= i <= ids0.len(),
                    p.peer_ids@ == ids0,
                    kept@ == ids_without(ids0, peer_ids@, i as int),
                decreases ids0.len() - i,
            {
                if !contains_peer_id(peer_ids, p.peer_ids[i]) {
                    kept.push(p.peer_ids[i]);
                }
                i = i + 1;
            }
            p.peer_ids = kept;
            self.publishers.insert(k, p);
            k = k + 1;
        }
        let mut k2: usize = 0;
        while k2 < self.receivers.len()
            invariant
                0 <= k2 <= self.receivers@.len(),
                *self == (Member {
                    publishers: self.publishers,
                    receivers: self.receivers,
                    ..*old(self)
                }),
                self.publishers@.len() == old(self).publishers@.len(),
                forall|j: int| 0 <= j < self.publishers@.len() ==> {
                    let p1 = #[trigger] self.publishers@[j];
                    let p0 = old(self).publishers@[j];
                    &&& p1 == (WebRtcPublishEndpoint { peer_ids: p1.peer_ids, ..p0 })
                    &&& p1.peer_ids@ == ids_without(
                        p0.peer_ids@,
                        peer_ids@,
                        p0.peer_ids@.len() as int,
                    )
                },
                self.receivers@.len() == old(self).receivers@.len(),
                forall|j: int| 0 <= j < k2 ==> {
                    let r1 = #[trigger] self.receivers@[j];
                    let r0 = old(self).receivers@[j];
                    if r0.peer_id matches Some(p) && peer_ids@.contains(p) {
                        r1 == (WebRtcPlayEndpoint { peer_id: None::<PeerId>, ..r0 })
                    } else {
                        r1 == r0
                    }
                },
                forall|j: int| k2 <= j < self.receivers@.len() ==> #[trigger] self.receivers@[j]
                    == old(self).receivers@[j],
            decreases self.receivers@.len() - k2,
        {
            let reset = match &self.receivers[k2].peer_id {
                Some(p) => contains_peer_id(peer_ids, *p),
                None => false,
            };
            if reset {
                let mut r = self.receivers.remove(k2);
                r.peer_id = None;
                self.receivers.insert(k2, r);
            }
            k2 = k2 + 1;
        }
    }
}

/// Removes a publish endpoint from its owner and, with it, every play
/// endpoint sourced from it, whichever member holds one.
#[verifier::loop_isolation(false)]
pub fn remove_publisher(members: &mut Vec<Member>, owner: &MemberId, id: &EndpointId)
    ensures
        final(members)@.len() == old(members)@.len(),
        forall|k: int| 0 <= k < final(members)@.len() ==> {
            let m1 = #[trigger] final(members)@[k];
            let m0 = old(members)@[k];
            &&& m1 == (Member { publishers: m1.publishers, receivers: m1.receivers, ..m0 })
            &&& m1.publishers@ == (if m0.id@ == owner@ {
                pubs_without(m0.publishers@, id@, m0.publishers@.len() as int)
            } else {
                m0.publishers@
            })
            &&& m1.receivers@ == plays_without_src(
                m0.receivers@,
                owner@,
                id@,
                m0.receivers@.len() as int,
            )
        },
{
    let mut k: usize = 0;
    while k < members.len()
        invariant
            0 <= k <= members@.len(),
            members@.len() == old(members)@.len(),
            forall|j: int| 0 <= j < k ==> {
                let m1 = #[trigger] members@[j];
                let m0 = old(members)@[j];
                &&& m1 == (Member { publishers: m1.publishers, receivers: m1.receivers, ..m0 })
                &&& m1.publishers@ == (if m0.id@ == owner@ {
                    pubs_without(m0.publishers@, id@, m0.publishers@.len() as int)
                } else {
                    m0.publishers@
                })
                &&& m1.receivers@ == plays_without_src(
                    m0.receivers@,
                    owner@,
                    id@,
                    m0.receivers@.len() as int,
                )
            },
            forall|j: int| k <= j < members@.len() ==> #[trigger] members@[j] == old(members)@[j],
        decreases members@.len() - k,
    {
        let ghost ms0 = members@;
        let mut m = members.remove(k);
        if m.id.eq_id(owner) {
            drop_pubs_with_id(&mut m.publishers, id);
        }
        drop_plays_with_src(&mut m.receivers, owner, id);
        members.insert(k, m);
        proof {
            assert(members@[k as int] == m);
            assert(ms0[k as int] == old(members)@[k as int]);
            assert forall|j: int| 0 <= j < members@.len() && j != k as int implies members@[j]
                == ms0[j] by {}
        }
        k = k + 1;
    }
}

/// Removes a play endpoint from its owner and drops its reference from the
/// publisher that fed it, whichever member holds it.
#[verifier::loop_isolation(false)]
pub fn remove_receiver(members: &mut Vec<Member>, owner: &MemberId, id: &EndpointId)
    ensures
        final(members)@.len() == old(members)@.len(),
        forall|k: int| 0 <= k < final(members)@.len() ==> {
            let m1 = #[trigger] final(members)@[k];
            let m0 = old(members)@[k];
            &&& m1 == (Member { publishers: m1.publishers, receivers: m1.receivers, ..m0 })
            &&& m1.receivers@ == (if m0.id@ == owner@ {
                plays_without_id(m0.receivers@, id@, m0.receivers@.len() as int)
            } else {
                m0.receivers@
            })
            &&& m1.publishers@.len() == m0.publishers@.len()
            &&& (forall|j: int| 0 <= j < m1.publishers@.len() ==> {
                let p1 = #[trigger] m1.publishers@[j];
                let p0 = m0.publishers@[j];
                &&& p1 == (WebRtcPublishEndpoint { receivers: p1.receivers, ..p0 })
                &&& p1.receivers@ == refs_without(
                    p0.receivers@,
                    owner@,
                    id@,
                    p0.receivers@.len() as int,
                )
            })
        },
{
    let mut k: usize = 0;
    while k < members.len()
        invariant
            0 <= k <= members@.len(),
            members@.len() == old(members)@.len(),
            forall|j: int| 0 <= j < k ==> {
                let m1 = #[trigger] members@[j];
                let m0 = old(members)@[j];
                &&& m1 == (Member { publishers: m1.publishers, receivers: m1.receivers, ..m0 })
                &&& m1.receivers@ == (if m0.id@ == owner@ {
                    plays_without_id(m0.receivers@, id@, m0.receivers@.len() as int)
                } else {
                    m0.receivers@
                })
                &&& m1.publishers@.len() == m0.publishers@.len()
                &&& (forall|j2: int| 0 <= j2 < m1.publishers@.len() ==> {
                    let p1 = #[trigger] m1.publishers@[j2];
                    let p0 = m0.publishers@[j2];
                    &&& p1 == (WebRtcPublishEndpoint { receivers: p1.receivers, ..p0 })
                    &&& p1.receivers@ == refs_without(
                        p0.receivers@,
                        owner@,
                        id@,
                        p0.receivers@.len() as int,
                    )
                })
            },
            forall|j: int| k <= j < members@.len() ==> #[trigger] members@[j] == old(members)@[j],
        decreases members@.len() - k,
    {
        let ghost ms0 = members@;
        let mut m = members.remove(k);
        if m.id.eq_id(owner) {
            drop_plays_with_id(&mut m.receivers, id);
        }
        let ghost pubs0 = m.publishers@;
        let ghost m_before = m;
        let mut j: usize = 0;
        while j < m.publishers.len()
            invariant
                0 <= j <= pubs0.len(),
                m == (Member { publishers: m.publishers, ..m_before }),
                m.publishers@.len() == pubs0.len(),
                forall|j2: int| 0 <= j2 < j ==> {
                    let p1 = #[trigger] m.publishers@[j2];
                    let p0 = pubs0[j2];
                    &&& p1 == (WebRtcPublishEndpoint { receivers: p1.receivers, ..p0 })
                    &&& p1.receivers@ == refs_without(
                        p0.receivers@,
                        owner@,
                        id@,
                        p0.receivers@.len() as int,
                    )
                },
                forall|j2: int| j <= j2 < pubs0.len() ==> #[trigger] m.publishers@[j2] == pubs0[
                    j2
                ],
            decreases pubs0.len() - j,
        {
            let mut p = m.publishers.remove(j);
            drop_refs_to(&mut p.receivers, owner, id);
            m.publishers.insert(j, p);
            j = j + 1;
        }
        members.insert(k, m);
        proof {
            assert(members@[k as int] == m);
            assert(ms0[k as int] == old(members)@[k as int]);
            assert forall|j: int| 0 <= j < members@.len() && j != k as int implies members@[j]
                == ms0[j] by {}
        }
        k = k + 1;
    }
}

/// Nothing kept by [`pubs_without`] carries the removed ID.
pub proof fn lemma_pubs_without_gone(s: Seq<WebRtcPublishEndpoint>, id: Seq<char>, n: int)
    ensures
        forall|j: int| 0 <= j < pubs_without(s, id, n).len() ==> (#[trigger] pubs_without(
            s,
            id,
            n,
        )[j]).id@ != id,
    decreases n,
{
    if n > 0 {
        lemma_pubs_without_gone(s, id, n - 1);
    }
}

/// Nothing kept by [`plays_without_id`] carries the removed ID.
pub proof fn lemma_plays_without_id_gone(s: Seq<WebRtcPlayEndpoint>, id: Seq<char>, n: int)
    ensures
        forall|j: int| 0 <= j < plays_without_id(s, id, n).len() ==> (#[trigger] plays_without_id(
            s,
            id,
            n,
        )[j]).id@ != id,
    decreases n,
{
    if n > 0 {
        lemma_plays_without_id_gone(s, id, n - 1);
    }
}


} // verus!
