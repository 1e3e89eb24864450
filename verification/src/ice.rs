//! TURN credentials: the `IceUser` bound to a peer, the servers list handed
//! to clients, and the interface of the credential service.

use vstd::prelude::*;
use vstd::string::StringExecFns;

use crate::errors::TurnServiceErr;
use crate::ids::{MemberId, PeerId, RoomId};

verus! {

/// A TURN server entry handed to a client.
#[derive(Clone, Debug, PartialEq, Eq)]
pub struct IceServer {
    /// URLs under which the server is reachable.
    pub urls: Vec<String>,
    /// Username of the one-shot credential.
    pub username: String,
    /// Password of the one-shot credential.
    pub credential: String,
}

/// A one-shot TURN credential, tied to exactly one peer; issued when the
/// peer pair is created and released when the peer is removed.
#[derive(Clone, Debug, PartialEq, Eq)]
pub struct IceUser {
    /// Address of the TURN server, as `host:port`.
    pub address: String,
    /// Username of the credential.
    pub user: String,
    /// Password of the credential.
    pub pass: String,
}

/// What a servers list built from the credential `u` holds: one entry, the
/// two TURN URLs of `u`'s address, and `u`'s username and password.
pub open spec fn servers_match(v: Seq<IceServer>, u: IceUser) -> bool {
    &&& v.len() == 1
    &&& v[0].urls@.len() == 2
    &&& v[0].urls@[0]@ == IceUser::spec_urls(u.address@)[0]
    &&& v[0].urls@[1]@ == IceUser::spec_urls(u.address@)[1]
    &&& v[0].username@ == u.user@
    &&& v[0].credential@ == u.pass@
}

impl IceUser {
    /// The two TURN URLs derived from an address: plain and TCP-pinned.
    pub open spec fn spec_urls(address: Seq<char>) -> Seq<Seq<char>> {
        seq!["turn:"@ + address, "turn:"@ + address + "?transport=tcp"@]
    }

    /// Returns a copy of this credential.
    pub fn clone_user(&self) -> (r: Self)
        ensures
            r == *self,
    {
        IceUser {
            address: self.address.clone(),
            user: self.user.clone(),
            pass: self.pass.clone(),
        }
    }

    /// The servers list built from this credential: one entry whose URLs
    /// point at the credential's TURN address over UDP and TCP.
    pub fn servers_list(&self) -> (r: Vec<IceServer>)
        ensures
            servers_match(r@, *self),
    {
        let mut udp_url: String = String::from_str("turn:");
        udp_url.append(self.address.as_str());
        let mut tcp_url: String = String::from_str("turn:");
        tcp_url.append(self.address.as_str());
        tcp_url.append("?transport=tcp");
        let mut urls: Vec<String> = Vec::new();
        urls.push(udp_url);
        urls.push(tcp_url);
        let server = IceServer {
            urls,
            username: self.user.clone(),
            credential: self.pass.clone(),
        };
        let mut servers: Vec<IceServer> = Vec::new();
        servers.push(server);
        servers
    }
}

/// What the TURN service should do when it cannot be reached.
#[derive(Clone, Copy, Debug, PartialEq, Eq, Structural)]
pub enum UnreachablePolicy {
    /// Report the failure to the caller.
    ReturnErr,
    /// Keep trying until the service answers.
    ReturnOnce,
}

/// The TURN credential service, as the signalling core sees it: it issues
/// one credential per peer and releases credentials on peer removal. The
/// transport side implements it; the core states nothing about its results
/// beyond their shape and handles every outcome.
pub trait TurnAuthService {
    /// Requests a credential for the given peer of the given room.
    fn create_user(
        &mut self,
        room_id: &RoomId,
        peer_id: PeerId,
        policy: UnreachablePolicy,
    ) -> Result<IceUser, TurnServiceErr>;

    /// Requests a credential for a member's own session of the given room.
    fn create_member_user(
        &mut self,
        room_id: &RoomId,
        member_id: &MemberId,
        policy: UnreachablePolicy,
    ) -> Result<IceUser, TurnServiceErr>;

    /// Releases credentials that are no longer in use.
    fn delete_users(&mut self, users: Vec<IceUser>) -> Result<(), TurnServiceErr>;
}

} // verus!
