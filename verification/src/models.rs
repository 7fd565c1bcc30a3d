//! The records the coordinator keeps, with their mathematical readings.

use crate::keyed::Keyed;
use vstd::prelude::*;

verus! {

/// A node's long-term record: the credential it registered and its hardware
/// identifier, stored under its node identifier.
pub struct RegisteredNode {
    pub id: u128,
    pub password: String,
    pub mac_id: String,
}

/// The mathematical reading of a [`RegisteredNode`].
pub struct RegNodeV {
    pub id: u128,
    pub password: Seq<char>,
    pub mac_id: Seq<char>,
}

impl View for RegisteredNode {
    type V = RegNodeV;

    open spec fn view(&self) -> RegNodeV {
        RegNodeV { id: self.id, password: self.password@, mac_id: self.mac_id@ }
    }
}

impl Keyed for RegNodeV {
    type K = u128;

    open spec fn key(&self) -> u128 {
        self.id
    }
}

impl Clone for RegisteredNode {
    fn clone(&self) -> (r: Self)
        ensures
            r == *self,
    {
        RegisteredNode {
            id: self.id,
            password: self.password.clone(),
            mac_id: self.mac_id.clone(),
        }
    }
}

/// What the listing of registered nodes shows of a record: its identifier
/// and device identifier. The credential is compared for equality during
/// authentication and never revealed, so no listing carries it.
pub struct RegisteredNodeInfo {
    pub id: u128,
    pub mac_id: String,
}

/// The mathematical reading of a [`RegisteredNodeInfo`].
pub struct RegNodeInfoV {
    pub id: u128,
    pub mac_id: Seq<char>,
}

impl View for RegisteredNodeInfo {
    type V = RegNodeInfoV;

    open spec fn view(&self) -> RegNodeInfoV {
        RegNodeInfoV { id: self.id, mac_id: self.mac_id@ }
    }
}

/// The public face of a stored record: everything but the credential.
pub open spec fn redacted(n: RegNodeV) -> RegNodeInfoV {
    RegNodeInfoV { id: n.id, mac_id: n.mac_id }
}

/// A currently live node: the metadata a connected, authenticated session
/// reports, stored under its node identifier.
pub struct ProxyNode {
    pub id: u128,
    pub name: String,
    pub ip: String,
    pub port: u16,
    pub active: bool,
    pub mac_id: String,
}

/// The mathematical reading of a [`ProxyNode`].
pub struct ProxyNodeV {
    pub id: u128,
    pub name: Seq<char>,
    pub ip: Seq<char>,
    pub port: u16,
    pub active: bool,
    pub mac_id: Seq<char>,
}

impl View for ProxyNode {
    type V = ProxyNodeV;

    open spec fn view(&self) -> ProxyNodeV {
        ProxyNodeV {
            id: self.id,
            name: self.name@,
            ip: self.ip@,
            port: self.port,
            active: self.active,
            mac_id: self.mac_id@,
        }
    }
}

impl Keyed for ProxyNodeV {
    type K = u128;

    open spec fn key(&self) -> u128 {
        self.id
    }
}

impl Clone for ProxyNode {
    fn clone(&self) -> (r: Self)
        ensures
            r == *self,
    {
        ProxyNode {
            id: self.id,
            name: self.name.clone(),
            ip: self.ip.clone(),
            port: self.port,
            active: self.active,
            mac_id: self.mac_id.clone(),
        }
    }
}

/// An operator account: a login name and the bcrypt hash of its password.
pub struct User {
    pub username: String,
    pub password_hash: String,
}

/// The mathematical reading of a [`User`].
pub struct UserV {
    pub username: Seq<char>,
    pub password_hash: Seq<char>,
}

impl View for User {
    type V = UserV;

    open spec fn view(&self) -> UserV {
        UserV { username: self.username@, password_hash: self.password_hash@ }
    }
}

impl Keyed for UserV {
    type K = Seq<char>;

    open spec fn key(&self) -> Seq<char> {
        self.username
    }
}

impl Clone for User {
    fn clone(&self) -> (r: Self)
        ensures
            r == *self,
    {
        User { username: self.username.clone(), password_hash: self.password_hash.clone() }
    }
}

/// An operator's login request.
pub struct LoginRequest {
    pub username: String,
    pub password: String,
}

/// The answer to a successful login: a bearer token.
pub struct LoginResponse {
    pub token: String,
}

/// What a bearer token asserts: the subject it was issued to and the moment,
/// in seconds since the epoch, at which it expires.
pub struct Claims {
    pub sub: String,
    pub exp: usize,
}

} // verus!
