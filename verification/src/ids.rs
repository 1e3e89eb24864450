//! Identifiers of the signalling entities, and the monotonic ID counter.

use vstd::prelude::*;

verus! {

/// Identifier of a `Peer` within a `Room`. Assigned by the room's
/// [`Counter`] and never reused.
#[derive(Clone, Copy, Debug, PartialEq, Eq, Hash, Structural)]
pub struct PeerId(pub u32);

/// Identifier of a media track within a `Room`. Assigned by the room's
/// [`Counter`] and never reused.
#[derive(Clone, Copy, Debug, PartialEq, Eq, Hash, Structural)]
pub struct TrackId(pub u32);

/// Identifier of a `Member` of a `Room`.
#[derive(Clone, Debug, PartialEq, Eq, Hash)]
pub struct MemberId(pub String);

/// Identifier of a `Room`.
#[derive(Clone, Debug, PartialEq, Eq, Hash)]
pub struct RoomId(pub String);

/// Identifier of an endpoint of a `Member`.
#[derive(Clone, Debug, PartialEq, Eq, Hash)]
pub struct EndpointId(pub String);

impl View for MemberId {
    type V = Seq<char>;

    open spec fn view(&self) -> Seq<char> {
        self.0@
    }
}

impl View for RoomId {
    type V = Seq<char>;

    open spec fn view(&self) -> Seq<char> {
        self.0@
    }
}

impl View for EndpointId {
    type V = Seq<char>;

    open spec fn view(&self) -> Seq<char> {
        self.0@
    }
}

impl MemberId {
    /// Compares two member IDs by their text.
    pub fn eq_id(&self, other: &MemberId) -> (r: bool)
        ensures
            r <==> self@ == other@,
    {
        self.0 == other.0
    }

    /// Returns a copy of this ID.
    pub fn clone_id(&self) -> (r: MemberId)
        ensures
            r == *self,
    {
        MemberId(self.0.clone())
    }
}

impl RoomId {
    /// Compares two room IDs by their text.
    pub fn eq_id(&self, other: &RoomId) -> (r: bool)
        ensures
            r <==> self@ == other@,
    {
        self.0 == other.0
    }

    /// Returns a copy of this ID.
    pub fn clone_id(&self) -> (r: RoomId)
        ensures
            r == *self,
    {
        RoomId(self.0.clone())
    }
}

impl EndpointId {
    /// Compares two endpoint IDs by their text.
    pub fn eq_id(&self, other: &EndpointId) -> (r: bool)
        ensures
            r <==> self@ == other@,
    {
        self.0 == other.0
    }

    /// Returns a copy of this ID.
    pub fn clone_id(&self) -> (r: EndpointId)
        ensures
            r == *self,
    {
        EndpointId(self.0.clone())
    }
}

/// Monotonic ID counter of a `Room`: hands out `u32` values in increasing
/// order, one per call, and never reuses one.
#[derive(Clone, Copy, Debug, PartialEq, Eq, Structural)]
pub struct Counter {
    /// The next value to hand out.
    pub count: u32,
}

impl Counter {
    /// Returns the current value and steps the counter past it.
    pub fn next_id(&mut self) -> (id: u32)
        requires
            old(self).count < u32::MAX,
        ensures
            id == old(self).count,
            final(self).count == old(self).count + 1,
    {
        let id = self.count;
        self.count = self.count + 1;
        id
    }
}

impl Default for Counter {
    /// A fresh counter starts at zero.
    fn default() -> (r: Self)
        ensures
            r.count == 0,
    {
        Counter { count: 0 }
    }
}

} // verus!
