//! The chat message that a host application receives, and the client that it
//! holds.

use vstd::prelude::*;
use crate::chat_controller::{
    after_join, after_leave, current, ConnectConfig, ConnectConfigView, Controller, Dispatch,
    Launch,
};
use crate::config::{Config, ConfigView};
use crate::text::view_of;

verus! {

/// One chat line as the host application sees it: who wrote it, the colour
/// the author's name is shown in, where the server told it, and the text.
#[derive(Debug, Clone, PartialEq, Eq)]
pub struct ChatMessage {
    pub author: String,
    pub color: Option<String>,
    pub message: String,
}

/// A `ChatMessage` as plain sequences of characters.
pub struct ChatMessageView {
    pub author: Seq<char>,
    pub color: Option<Seq<char>>,
    pub message: Seq<char>,
}

impl View for ChatMessage {
    type V = ChatMessageView;

    open spec fn view(&self) -> ChatMessageView {
        ChatMessageView { author: self.author@, color: view_of(self.color), message: self.message@ }
    }
}

/// The client that a host application holds: the configuration snapshot and
/// the supervisor. Each operation says what is to be done on the network; the
/// caller does it.
#[derive(Debug)]
pub struct Chat {
    pub controller: Controller,
    pub config: Config,
}

impl Chat {
    /// A client with an empty configuration and no session.
    pub fn new() -> (r: Chat)
        ensures
            current(r.controller@) is None,
            r.config.channel is None,
            r.config.oauth is None,
            r.config.nick is None,
    {
        Chat { controller: Controller::new(), config: Config::default() }
    }

    /// Takes over a configuration that was loaded, where one was.
    pub fn init(&mut self, loaded: Option<Config>)
        ensures
            final(self).controller@ == old(self).controller@,
            loaded matches Some(config) ==> final(self).config == config,
            loaded is None ==> final(self).config == old(self).config,
    {
        match loaded {
            Some(config) => { self.config = config; },
            None => {},
        }
    }

    /// Routes a line to the installed session, or nowhere when none is
    /// installed.
    pub fn send(&self, chat_message: String) -> (r: Dispatch)
        ensures
            r is Dropped <==> current(self.controller@) is None,
            r matches Dispatch::Forward { generation, line } ==> current(self.controller@) == Some(
                generation,
            ) && line@ == chat_message@,
    {
        self.controller.send(chat_message)
    }

    /// Joins `channel`: the channel is stored in the configuration, and a new
    /// session is started with the credentials that the configuration then
    /// holds. A session that is installed is cancelled.
    pub fn join(&mut self, channel: &str) -> (r: Launch)
        ensures
            final(self).config@ == (ConfigView { channel: Some(channel@), ..old(self).config@ }),
            final(self).controller@ == after_join(old(self).controller@),
            r.cancel == current(old(self).controller@),
            current(final(self).controller@) == Some(r.generation),
            r.cancel != Some(r.generation),
            r.credentials@ == (ConnectConfigView {
                channel: Some(channel@),
                oauth: old(self).config@.oauth,
                nick: old(self).config@.nick,
            }),
    {
        self.config.channel = Some(channel.to_owned());
        let credentials = ConnectConfig::from(self.config.snapshot());
        self.controller.join(credentials)
    }

    /// Cancels the installed session, if there is one. The configuration
    /// stays as it is.
    pub fn leave(&mut self) -> (r: Option<u64>)
        ensures
            final(self).controller@ == after_leave(old(self).controller@),
            final(self).config == old(self).config,
            r == current(old(self).controller@),
    {
        self.controller.leave()
    }

    /// Joins the channel joined last once more. Where no channel was ever
    /// joined, nothing happens.
    pub fn reconnect(&mut self) -> (r: Option<Launch>)
        ensures
            final(self).config == old(self).config,
            r is Some <==> old(self).config.channel is Some,
            r is None ==> final(self).controller@ == old(self).controller@,
            r matches Some(launch) ==> final(self).controller@ == after_join(old(self).controller@),
            r matches Some(launch) ==> launch.cancel == current(old(self).controller@),
            r matches Some(launch) ==> current(final(self).controller@) == Some(launch.generation),
            r matches Some(launch) ==> launch.cancel != Some(launch.generation),
            r matches Some(launch) ==> launch.credentials@ == (ConnectConfigView {
                channel: old(self).config@.channel,
                oauth: old(self).config@.oauth,
                nick: old(self).config@.nick,
            }),
    {
        if self.config.channel.is_some() {
            let credentials = ConnectConfig::from(self.config.snapshot());
            Some(self.controller.join(credentials))
        } else {
            None
        }
    }

    /// Stores a token that was fetched for this client.
    pub fn fetch_auth_token(&mut self, token: String)
        ensures
            final(self).controller@ == old(self).controller@,
            final(self).config@ == (ConfigView { oauth: Some(token@), ..old(self).config@ }),
    {
        self.config.fetch_auth_token(token);
    }
}

} // verus!
