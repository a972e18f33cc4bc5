//! The session triple the loop polls with, and the user record the board-post
//! relay resolves names from.

use vstd::prelude::*;

verus! {

/// The rotating session triple: short-lived key, poll endpoint, and the
/// cursor to replay verbatim on the next poll. The cursor is meaningful only
/// within one `(key, server)` pair.
#[derive(Debug, PartialEq)]
pub struct ServerConfig {
    pub key: String,
    pub server: String,
    pub ts: String,
}

/// Mathematical model of a [`ServerConfig`].
#[verifier::ext_equal]
pub struct SessionModel {
    pub key: Seq<char>,
    pub server: Seq<char>,
    pub ts: Seq<char>,
}

impl View for ServerConfig {
    type V = SessionModel;

    open spec fn view(&self) -> SessionModel {
        SessionModel { key: self.key@, server: self.server@, ts: self.ts@ }
    }
}

impl Clone for ServerConfig {
    fn clone(&self) -> (r: ServerConfig)
        ensures
            r@ == self@,
    {
        ServerConfig { key: self.key.clone(), server: self.server.clone(), ts: self.ts.clone() }
    }
}

/// A user as the lookup call reports it: either name part may be absent.
#[derive(Debug, PartialEq)]
pub struct User {
    pub first_name: Option<String>,
    pub last_name: Option<String>,
}

/// Mathematical model of a [`User`].
#[verifier::ext_equal]
pub struct UserModel {
    pub first_name: Option<Seq<char>>,
    pub last_name: Option<Seq<char>>,
}

impl View for User {
    type V = UserModel;

    open spec fn view(&self) -> UserModel {
        UserModel {
            first_name: match self.first_name {
                Some(n) => Some(n@),
                None => None,
            },
            last_name: match self.last_name {
                Some(n) => Some(n@),
                None => None,
            },
        }
    }
}

impl Clone for User {
    fn clone(&self) -> (r: User)
        ensures
            r@ == self@,
    {
        User {
            first_name: match &self.first_name {
                Some(n) => Some(n.clone()),
                None => None,
            },
            last_name: match &self.last_name {
                Some(n) => Some(n.clone()),
                None => None,
            },
        }
    }
}

} // verus!
