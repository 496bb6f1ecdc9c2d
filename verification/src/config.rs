//! The configuration snapshot: channel, token and nickname.

use vstd::prelude::*;
use crate::text::view_of;

verus! {

/// What the client remembers between joins. Each part may be missing.
#[derive(Debug, Clone, PartialEq, Eq)]
pub struct Config {
    pub channel: Option<String>,
    pub oauth: Option<String>,
    pub nick: Option<String>,
}

/// A `Config` as plain sequences of characters.
pub struct ConfigView {
    pub channel: Option<Seq<char>>,
    pub oauth: Option<Seq<char>>,
    pub nick: Option<Seq<char>>,
}

impl View for Config {
    type V = ConfigView;

    open spec fn view(&self) -> ConfigView {
        ConfigView {
            channel: view_of(self.channel),
            oauth: view_of(self.oauth),
            nick: view_of(self.nick),
        }
    }
}

impl Default for Config {
    /// The empty configuration.
    fn default() -> (r: Config)
        ensures
            r.channel is None,
            r.oauth is None,
            r.nick is None,
    {
        Config { channel: None, oauth: None, nick: None }
    }
}

/// A copy of an optional string.
pub fn copy_text(s: &Option<String>) -> (r: Option<String>)
    ensures
        view_of(r) == view_of(*s),
{
    match s {
        Some(s) => Some(s.clone()),
        None => None,
    }
}

impl Config {
    /// A copy with the same three parts.
    pub fn snapshot(&self) -> (r: Config)
        ensures
            r@ == self@,
    {
        Config {
            channel: copy_text(&self.channel),
            oauth: copy_text(&self.oauth),
            nick: copy_text(&self.nick),
        }
    }

    /// Takes the channel from the program's arguments: the argument after the
    /// program's name becomes the channel; with no such argument nothing
    /// changes.
    pub fn set_initial_channel(&mut self, args: &Vec<String>)
        ensures
            final(self)@.oauth == old(self)@.oauth,
            final(self)@.nick == old(self)@.nick,
            args.len() > 1 ==> final(self)@.channel == Some(args[1]@),
            args.len() <= 1 ==> final(self)@.channel == old(self)@.channel,
    {
        if args.len() > 1 {
            self.channel = Some(args[1].clone());
        }
    }

    /// Stores a token that was fetched for this client.
    pub fn fetch_auth_token(&mut self, token: String)
        ensures
            final(self)@.channel == old(self)@.channel,
            final(self)@.nick == old(self)@.nick,
            final(self)@.oauth == Some(token@),
    {
        self.oauth = Some(token);
    }
}

} // verus!
