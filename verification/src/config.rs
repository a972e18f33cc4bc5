//! The process configuration, constructed once at startup from whatever the
//! surroundings supply, and passed explicitly wherever it is needed.

use vstd::prelude::*;

verus! {

/// The values the process cannot run without — access token, feed group,
/// destination chat — and the optional location of the session store.
#[derive(Debug)]
pub struct Config {
    pub token: String,
    pub group_id: u64,
    pub chat_peer_id: i64,
    pub server_options_file: Option<String>,
}

/// Mathematical model of a [`Config`].
#[verifier::ext_equal]
pub struct ConfigModel {
    pub token: Seq<char>,
    pub group_id: u64,
    pub chat_peer_id: i64,
    pub server_options_file: Option<Seq<char>>,
}

impl View for Config {
    type V = ConfigModel;

    open spec fn view(&self) -> ConfigModel {
        ConfigModel {
            token: self.token@,
            group_id: self.group_id,
            chat_peer_id: self.chat_peer_id,
            server_options_file: match self.server_options_file {
                Some(f) => Some(f@),
                None => None,
            },
        }
    }
}

impl Config {
    /// Bundle the startup values.
    pub fn new(
        token: String,
        group_id: u64,
        chat_peer_id: i64,
        server_options_file: Option<String>,
    ) -> (c: Config)
        ensures
            c@.token == token@,
            c@.group_id == group_id,
            c@.chat_peer_id == chat_peer_id,
            c@.server_options_file == (match server_options_file {
                Some(f) => Some(f@),
                None => None,
            }),
    {
        Config { token, group_id, chat_peer_id, server_options_file }
    }

    /// The access token for every collaborator call.
    pub fn token(&self) -> (r: &str)
        ensures
            r@ == self@.token,
    {
        self.token.as_str()
    }

    /// The feed group whose events are relayed.
    pub fn group_id(&self) -> (r: u64)
        ensures
            r == self@.group_id,
    {
        self.group_id
    }

    /// The chat every relay goes to.
    pub fn chat_peer_id(&self) -> (r: i64)
        ensures
            r == self@.chat_peer_id,
    {
        self.chat_peer_id
    }

    /// Where the session record is kept, if persistence is wanted.
    pub fn server_options_file(&self) -> (r: Option<&str>)
        ensures
            (match r {
                Some(f) => self@.server_options_file == Some(f@),
                None => self@.server_options_file is None,
            }),
    {
        match &self.server_options_file {
            Some(f) => Some(f.as_str()),
            None => None,
        }
    }
}

} // verus!
