//! `local://` element URIs of the Control API: a room, a member of a room,
//! or an endpoint of a member.

use vstd::prelude::*;
use vstd::string::StrSliceExecFns;
use vstd::string::StringExecFns;

use crate::errors::LocalUriParseError;
use crate::ids::{EndpointId, MemberId, RoomId};

verus! {

/// A parsed element URI: how deep it points decides what it addresses.
#[derive(Clone, Debug, PartialEq, Eq)]
pub enum StatefulLocalUri {
    /// `local://room`.
    Room {
        /// The addressed room.
        room_id: RoomId,
    },
    /// `local://room/member`.
    Member {
        /// The room of the member.
        room_id: RoomId,
        /// The addressed member.
        member_id: MemberId,
    },
    /// `local://room/member/endpoint`.
    Endpoint {
        /// The room of the member.
        room_id: RoomId,
        /// The member of the endpoint.
        member_id: MemberId,
        /// The addressed endpoint.
        endpoint_id: EndpointId,
    },
}

impl StatefulLocalUri {
    /// The room the URI points into.
    pub open spec fn spec_room_id(&self) -> Seq<char> {
        match self {
            StatefulLocalUri::Room { room_id } => room_id@,
            StatefulLocalUri::Member { room_id, .. } => room_id@,
            StatefulLocalUri::Endpoint { room_id, .. } => room_id@,
        }
    }

    /// The room the URI points into.
    pub fn room_id(&self) -> (r: &RoomId)
        ensures
            r@ == self.spec_room_id(),
    {
        match self {
            StatefulLocalUri::Room { room_id } => room_id,
            StatefulLocalUri::Member { room_id, .. } => room_id,
            StatefulLocalUri::Endpoint { room_id, .. } => room_id,
        }
    }
}

/// The scheme prefix of every element URI.
pub open spec fn local_prefix() -> Seq<char> {
    "local://"@
}

/// Whether `s` starts with `p`.
pub open spec fn starts_with(s: Seq<char>, p: Seq<char>) -> bool {
    s.len() >= p.len() && s.subrange(0, p.len() as int) == p
}

/// How many times `c` occurs in `s`.
pub open spec fn count_char(s: Seq<char>, c: char) -> int
    decreases s.len(),
{
    if s.len() == 0 {
        0
    } else {
        count_char(s.drop_last(), c) + if s.last() == c {
            1int
        } else {
            0int
        }
    }
}

/// A character occurs at most once per position.
proof fn lemma_count_char_le(s: Seq<char>, c: char)
    ensures
        0 <= count_char(s, c) <= s.len(),
    decreases s.len(),
{
    if s.len() > 0 {
        lemma_count_char_le(s.drop_last(), c);
    }
}

/// Whether splitting `rest` on `/` yields an empty segment: it is empty,
/// starts or ends with a slash, or holds two adjacent slashes.
pub open spec fn has_empty_segment(rest: Seq<char>) -> bool {
    ||| rest.len() == 0
    ||| rest[0] == '/'
    ||| rest[rest.len() - 1] == '/'
    ||| exists|i: int| 0 <= i < rest.len() - 1 && rest[i] == '/' && #[trigger] rest[i + 1] == '/'
}

/// Whether the URI text decomposes into the parsed value: the prefix, then
/// the segments joined by slashes, each non-empty and slash-free.
pub open spec fn uri_matches(s: Seq<char>, u: StatefulLocalUri) -> bool {
    match u {
        StatefulLocalUri::Room { room_id } => {
            &&& s == local_prefix() + room_id@
            &&& room_id@.len() > 0
            &&& !room_id@.contains('/')
        },
        StatefulLocalUri::Member { room_id, member_id } => {
            &&& s == local_prefix() + room_id@ + seq!['/'] + member_id@
            &&& room_id@.len() > 0
            &&& member_id@.len() > 0
            &&& !room_id@.contains('/')
            &&& !member_id@.contains('/')
        },
        StatefulLocalUri::Endpoint { room_id, member_id, endpoint_id } => {
            &&& s == local_prefix() + room_id@ + seq!['/'] + member_id@ + seq!['/']
                + endpoint_id@
            &&& room_id@.len() > 0
            &&& member_id@.len() > 0
            &&& endpoint_id@.len() > 0
            &&& !room_id@.contains('/')
            &&& !member_id@.contains('/')
            &&& !endpoint_id@.contains('/')
        },
    }
}

/// Parses a `local://` element URI.
///
/// An empty text is refused as empty; one that does not carry the scheme
/// is refused as not local; one with more than three segments as too long;
/// one with an empty segment as missing fields. Everything else parses
/// into the room, member or endpoint URI the text spells.
#[verifier::loop_isolation(false)]
#[verifier::rlimit(100)]
#[verifier::spinoff_prover]
pub fn parse_local_uri(s: &str) -> (r: Result<StatefulLocalUri, LocalUriParseError>)
    ensures
        (r matches Err(LocalUriParseError::Empty)) <==> s@.len() == 0,
        s@.len() > 0 ==> ((r matches Err(LocalUriParseError::NotLocal(t)) && t@ == s@) <==> !starts_with(
            s@,
            local_prefix(),
        )),
        starts_with(s@, local_prefix()) ==> {
            &&& ((r matches Err(LocalUriParseError::TooManyFields(t)) && t@ == s@) <==> count_char(
                s@.skip(8),
                '/',
            ) >= 3)
            &&& (count_char(s@.skip(8), '/') < 3 ==> ((r matches Err(
                LocalUriParseError::MissingFields(t),
            ) && t@ == s@) <==> has_empty_segment(s@.skip(8))))
        },
        r matches Ok(u) ==> uri_matches(s@, u),
        (r is Ok) <==> (s@.len() > 0 && starts_with(s@, local_prefix()) && count_char(
            s@.skip(8),
            '/',
        ) < 3 && !has_empty_segment(s@.skip(8))),
{
    proof {
        reveal_strlit("local://");
    }
    let n = s.unicode_len();
    if n == 0 {
        return Err(LocalUriParseError::Empty);
    }
    let mut chars: Vec<char> = Vec::new();
    let mut i: usize = 0;
    while i < n
        invariant
            0 <= i <= n,
            n == s@.len(),
            chars@ == s@.subrange(0, i as int),
        decreases n - i,
    {
        chars.push(s.get_char(i));
        proof {
            assert(chars@ =~= s@.subrange(0, i as int + 1));
        }
        i = i + 1;
    }
    proof {
        assert(chars@ =~= s@);
    }
    let prefix_ok = n >= 8 && chars[0] == 'l' && chars[1] == 'o' && chars[2] == 'c' && chars[3]
        == 'a' && chars[4] == 'l' && chars[5] == ':' && chars[6] == '/' && chars[7] == '/';
    proof {
        if prefix_ok {
            assert(s@.subrange(0, 8) =~= local_prefix());
        } else {
            if starts_with(s@, local_prefix()) {
                assert(s@.subrange(0, 8)[0] == 'l');
                assert(s@.subrange(0, 8)[1] == 'o');
                assert(s@.subrange(0, 8)[2] == 'c');
                assert(s@.subrange(0, 8)[3] == 'a');
                assert(s@.subrange(0, 8)[4] == 'l');
                assert(s@.subrange(0, 8)[5] == ':');
                assert(s@.subrange(0, 8)[6] == '/');
                assert(s@.subrange(0, 8)[7] == '/');
            }
        }
    }
    if !prefix_ok {
        return Err(LocalUriParseError::NotLocal(s.to_owned()));
    }
    let ghost rest = s@.skip(8);
    // Walk the remainder: collect the segment boundaries and count slashes.
    let mut slashes: usize = 0;
    let mut empty_seg = n == 8;
    let mut last_boundary: usize = 8;
    let mut cuts: Vec<usize> = Vec::new();
    let mut j: usize = 8;
    while j < n
        invariant
            8 <= j <= n,
            n == s@.len(),
            chars@ == s@,
            slashes as int == count_char(s@.subrange(8, j as int), '/'),
            slashes as int <= j - 8,
            cuts@.len() == slashes,
            forall|k: int| 0 <= k < cuts@.len() ==> 8 <= #[trigger] cuts@[k] < j && s@[cuts@[
                k
            ] as int] == '/',
            forall|k: int| 0 <= k < cuts@.len() - 1 ==> #[trigger] cuts@[k] < cuts@[k + 1],
            forall|p: int| 8 <= p < j && s@[p] == '/' ==> exists|k: int|
                0 <= k < cuts@.len() && #[trigger] cuts@[k] as int == p,
            last_boundary as int == if cuts@.len() == 0 {
                8int
            } else {
                cuts@[cuts@.len() - 1] as int + 1
            },
            empty_seg == (n == 8 || exists|k: int|
                0 <= k < cuts@.len() && (#[trigger] cuts@[k] == 8 || s@[cuts@[k] - 1] == '/')),
        decreases n - j,
    {
        proof {
            assert(s@.subrange(8, j as int + 1).drop_last() =~= s@.subrange(8, j as int));
            lemma_count_char_le(s@.subrange(8, j as int), '/');
        }
        if chars[j] == '/' {
            let at_boundary = j == last_boundary;
            if at_boundary {
                empty_seg = true;
            }
            let ghost cuts0 = cuts@;
            let ghost lb0 = last_boundary;
            cuts.push(j);
            slashes = slashes + 1;
            last_boundary = j + 1;
            proof {
                assert(cuts@[cuts@.len() - 1] == j);
                assert forall|k: int| 0 <= k < cuts@.len() - 1 implies #[trigger] cuts@[k] < cuts@[
                    k + 1
                ] by {
                    assert(cuts@[k] == cuts0[k]);
                }
                assert forall|p: int| 8 <= p < j + 1 && s@[p] == '/' implies exists|k: int|
                    0 <= k < cuts@.len() && #[trigger] cuts@[k] as int == p by {
                    if p < j {
                        let k = choose|k: int|
                            0 <= k < cuts0.len() && #[trigger] cuts0[k] as int == p;
                        assert(cuts@[k] as int == p);
                    } else {
                        assert(cuts@[cuts@.len() - 1] as int == p);
                    }
                }
                if j as int != lb0 as int {
                    // the position before this cut is no slash, else it would
                    // be a recorded cut right before the last boundary
                    if s@[j - 1] == '/' {
                        let k = choose|k: int|
                            0 <= k < cuts0.len() && #[trigger] cuts0[k] as int == j - 1;
                        lemma_cuts_sorted_max(cuts0);
                        assert(cuts0[cuts0.len() - 1] as int == lb0 - 1);
                        assert(cuts0[k] as int <= lb0 - 1);
                    }
                }
            }
        }
        j = j + 1;
    }
    proof {
        assert(s@.subrange(8, n as int) =~= rest);
    }
    if slashes >= 3 {
        return Err(LocalUriParseError::TooManyFields(s.to_owned()));
    }
    let trailing_empty = last_boundary == n;
    if empty_seg || trailing_empty {
        proof {
            lemma_empty_segment_found(
                s@,
                cuts@,
                slashes as int,
                last_boundary as int,
                n as int,
                empty_seg,
            );
        }
        return Err(LocalUriParseError::MissingFields(s.to_owned()));
    }
    proof {
        lemma_no_empty_segment(s@, cuts@, slashes as int, last_boundary as int, n as int);
    }
    if slashes == 0 {
        let room = s.substring_char(8, n).to_owned();
        proof {
            assert(s@ =~= local_prefix() + room@);
            lemma_segment_slash_free(s@, 8, n as int, cuts@);
        }
        Ok(StatefulLocalUri::Room { room_id: RoomId(room) })
    } else if slashes == 1 {
        let c1 = cuts[0];
        let room = s.substring_char(8, c1).to_owned();
        let member = s.substring_char(c1 + 1, n).to_owned();
        proof {
            assert(s@ =~= local_prefix() + room@ + seq!['/'] + member@);
            lemma_segment_slash_free(s@, 8, c1 as int, cuts@);
            lemma_segment_slash_free(s@, c1 as int + 1, n as int, cuts@);
        }
        Ok(
            StatefulLocalUri::Member {
                room_id: RoomId(room),
                member_id: MemberId(member),
            },
        )
    } else {
        let c1 = cuts[0];
        let c2 = cuts[1];
        let room = s.substring_char(8, c1).to_owned();
        let member = s.substring_char(c1 + 1, c2).to_owned();
        let endpoint = s.substring_char(c2 + 1, n).to_owned();
        proof {
            assert(s@ =~= local_prefix() + room@ + seq!['/'] + member@ + seq!['/'] + endpoint@);
            lemma_segment_slash_free(s@, 8, c1 as int, cuts@);
            lemma_segment_slash_free(s@, c1 as int + 1, c2 as int, cuts@);
            lemma_segment_slash_free(s@, c2 as int + 1, n as int, cuts@);
        }
        Ok(
            StatefulLocalUri::Endpoint {
                room_id: RoomId(room),
                member_id: MemberId(member),
                endpoint_id: EndpointId(endpoint),
            },
        )
    }
}

/// A stretch of the URI that crosses no recorded cut holds no slash.
proof fn lemma_segment_slash_free(s: Seq<char>, from: int, to: int, cuts: Seq<usize>)
    requires
        8 <= from <= to <= s.len(),
        forall|k: int| 0 <= k < cuts.len() ==> 8 <= #[trigger] cuts[k] < s.len() && s[cuts[
            k
        ] as int] == '/',
        forall|p: int| 8 <= p < s.len() && s[p] == '/' ==> exists|k: int|
            0 <= k < cuts.len() && #[trigger] cuts[k] as int == p,
        forall|k: int| #![trigger cuts[k]] 0 <= k < cuts.len() && cuts[k] as int >= from ==> cuts[k] as int >= to,
    ensures
        !s.subrange(from, to).contains('/'),
{
    let seg = s.subrange(from, to);
    assert forall|q: int| 0 <= q < seg.len() implies seg[q] != '/' by {
        if seg[q] == '/' {
            assert(s[from + q] == '/');
            let k = choose|k: int| 0 <= k < cuts.len() && #[trigger] cuts[k] as int == from + q;
        }
    }
    if seg.contains('/') {
        let q = choose|q: int| 0 <= q < seg.len() && seg[q] == '/';
    }
}

/// When the scan flagged an empty segment, the remainder has one.
proof fn lemma_empty_segment_found(
    s: Seq<char>,
    cuts: Seq<usize>,
    slashes: int,
    last_boundary: int,
    n: int,
    empty_seg: bool,
)
    requires
        n == s.len(),
        n >= 8,
        cuts.len() == slashes,
        forall|k: int| 0 <= k < cuts.len() ==> 8 <= #[trigger] cuts[k] < n && s[cuts[k] as int]
            == '/',
        last_boundary == if cuts.len() == 0 {
            8int
        } else {
            cuts[cuts.len() - 1] as int + 1
        },
        empty_seg == (n == 8 || exists|k: int|
            0 <= k < cuts.len() && (#[trigger] cuts[k] == 8 || s[cuts[k] - 1] == '/')),
        empty_seg || last_boundary == n,
    ensures
        has_empty_segment(s.skip(8)),
{
    let rest = s.skip(8);
    if n == 8 {
        assert(rest.len() == 0);
    } else if empty_seg {
        let k = choose|k: int|
            0 <= k < cuts.len() && (#[trigger] cuts[k] == 8 || s[cuts[k] - 1] == '/');
        if cuts[k] == 8 {
            assert(rest[0] == s[8]);
            assert(rest[0] == '/');
        } else {
            let p = cuts[k] - 1;
            assert(s[p as int] == '/');
            assert(s[p as int + 1] == '/');
            assert(rest[p - 8] == '/');
            assert(rest[p - 8 + 1] == '/');
        }
    } else {
        assert(cuts.len() > 0);
        let lastc = cuts[cuts.len() - 1] as int;
        assert(s[lastc] == '/');
        assert(lastc == n - 1);
        assert(rest[rest.len() - 1] == s[n - 1]);
    }
}

/// When the scan flagged nothing and the text does not end at a boundary,
/// the remainder has no empty segment.
proof fn lemma_no_empty_segment(
    s: Seq<char>,
    cuts: Seq<usize>,
    slashes: int,
    last_boundary: int,
    n: int,
)
    requires
        n == s.len(),
        n > 8,
        cuts.len() == slashes,
        forall|k: int| 0 <= k < cuts.len() ==> 8 <= #[trigger] cuts[k] < n && s[cuts[k] as int]
            == '/',
        forall|p: int| 8 <= p < n && s[p] == '/' ==> exists|k: int|
            0 <= k < cuts.len() && #[trigger] cuts[k] as int == p,
        !(exists|k: int| 0 <= k < cuts.len() && (#[trigger] cuts[k] == 8 || s[cuts[k] - 1]
            == '/')),
        forall|k: int| 0 <= k < cuts.len() - 1 ==> #[trigger] cuts[k] < cuts[k + 1],
        last_boundary == if cuts.len() == 0 {
            8int
        } else {
            cuts[cuts.len() - 1] as int + 1
        },
        last_boundary != n,
    ensures
        !has_empty_segment(s.skip(8)),
{
    let rest = s.skip(8);
    assert(rest.len() == n - 8);
    assert(rest[0] == s[8]);
    if rest[0] == '/' {
        let k = choose|k: int| 0 <= k < cuts.len() && #[trigger] cuts[k] as int == 8;
        assert(cuts[k] == 8);
    }
    if rest[rest.len() - 1] == '/' {
        assert(s[n - 1] == '/');
        let k = choose|k: int| 0 <= k < cuts.len() && #[trigger] cuts[k] as int == n - 1;
        assert(cuts[k] as int == n - 1);
        assert(forall|k2: int| 0 <= k2 < cuts.len() ==> #[trigger] cuts[k2] as int <= cuts[
            cuts.len() - 1
        ] as int) by {
            lemma_cuts_sorted_max(cuts);
        }
        assert(cuts[cuts.len() - 1] as int == n - 1);
    }
    assert forall|i: int| 0 <= i < rest.len() - 1 && rest[i] == '/' implies #[trigger] rest[i + 1]
        != '/' by {
        if rest[i + 1] == '/' {
            assert(s[8 + i] == '/');
            assert(s[8 + i + 1] == '/');
            let k = choose|k: int| 0 <= k < cuts.len() && #[trigger] cuts[k] as int == 8 + i + 1;
            assert(s[cuts[k] - 1] == '/');
        }
    }
}

/// Every cut sits at or before the last one.
proof fn lemma_cuts_sorted_max(cuts: Seq<usize>)
    requires
        forall|k: int| 0 <= k < cuts.len() - 1 ==> #[trigger] cuts[k] < cuts[k + 1],
    ensures
        forall|k: int| 0 <= k < cuts.len() ==> #[trigger] cuts[k] as int <= cuts[cuts.len()
            - 1] as int,
    decreases cuts.len(),
{
    if cuts.len() > 1 {
        lemma_cuts_sorted_max(cuts.drop_last());
        assert forall|k: int| 0 <= k < cuts.len() implies #[trigger] cuts[k] as int <= cuts[
            cuts.len() - 1
        ] as int by {
            if k < cuts.len() - 1 {
                assert(cuts.drop_last()[k] == cuts[k]);
                assert(cuts.drop_last()[cuts.len() - 2] == cuts[cuts.len() - 2]);
                assert(cuts[cuts.len() - 2] < cuts[cuts.len() - 1]);
            }
        }
    }
}

/// A character absent from a sequence is counted zero times in it.
pub proof fn lemma_count_char_zero(s: Seq<char>, c: char)
    requires
        !s.contains(c),
    ensures
        count_char(s, c) == 0,
    decreases s.len(),
{
    if s.len() > 0 {
        assert(s.last() != c);
        assert(!s.drop_last().contains(c)) by {
            if s.drop_last().contains(c) {
                let w = choose|w: int| 0 <= w < s.drop_last().len() && s.drop_last()[w] == c;
                assert(s[w] == c);
            }
        }
        lemma_count_char_zero(s.drop_last(), c);
    }
}

/// Counting a character distributes over concatenation.
pub proof fn lemma_count_char_concat(a: Seq<char>, b: Seq<char>, c: char)
    ensures
        count_char(a + b, c) == count_char(a, c) + count_char(b, c),
    decreases b.len(),
{
    if b.len() == 0 {
        assert(a + b =~= a);
    } else {
        assert((a + b).drop_last() =~= a + b.drop_last());
        assert((a + b).last() == b.last());
        lemma_count_char_concat(a, b.drop_last(), c);
    }
}

/// How many slashes the remainder of a decomposed URI holds: none for a
/// room, one for a member, two for an endpoint.
pub proof fn lemma_uri_depth(s: Seq<char>, u: StatefulLocalUri)
    requires
        uri_matches(s, u),
    ensures
        count_char(s.skip(8), '/') == (match u {
            StatefulLocalUri::Room { .. } => 0int,
            StatefulLocalUri::Member { .. } => 1int,
            StatefulLocalUri::Endpoint { .. } => 2int,
        }),
{
    reveal_strlit("local://");
    match u {
        StatefulLocalUri::Room { room_id } => {
            assert(s.skip(8) =~= room_id@);
            lemma_count_char_zero(room_id@, '/');
        },
        StatefulLocalUri::Member { room_id, member_id } => {
            assert(s.skip(8) =~= room_id@ + seq!['/'] + member_id@);
            lemma_count_char_concat(room_id@ + seq!['/'], member_id@, '/');
            lemma_count_char_concat(room_id@, seq!['/'], '/');
            lemma_count_char_zero(room_id@, '/');
            lemma_count_char_zero(member_id@, '/');
            assert(count_char(seq!['/'], '/') == 1) by {
                let one = seq!['/'];
                assert(one.last() == '/');
                assert(one.drop_last() =~= Seq::<char>::empty());
                assert(count_char(one.drop_last(), '/') == 0);
            }
        },
        StatefulLocalUri::Endpoint { room_id, member_id, endpoint_id } => {
            assert(s.skip(8) =~= room_id@ + seq!['/'] + member_id@ + seq!['/'] + endpoint_id@);
            lemma_count_char_concat(
                room_id@ + seq!['/'] + member_id@ + seq!['/'],
                endpoint_id@,
                '/',
            );
            lemma_count_char_concat(room_id@ + seq!['/'] + member_id@, seq!['/'], '/');
            lemma_count_char_concat(room_id@ + seq!['/'], member_id@, '/');
            lemma_count_char_concat(room_id@, seq!['/'], '/');
            lemma_count_char_zero(room_id@, '/');
            lemma_count_char_zero(member_id@, '/');
            lemma_count_char_zero(endpoint_id@, '/');
            assert(count_char(seq!['/'], '/') == 1) by {
                let one = seq!['/'];
                assert(one.last() == '/');
                assert(one.drop_last() =~= Seq::<char>::empty());
                assert(count_char(one.drop_last(), '/') == 0);
            }
        },
    }
}


} // verus!
