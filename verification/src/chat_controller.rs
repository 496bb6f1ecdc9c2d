//! The supervisor: which session is live, and what a join, a leave or a send
//! does to it.

use vstd::prelude::*;
use crate::config::Config;
use crate::text::view_of;

verus! {

/// The credentials that one connection is opened with.
#[derive(Debug, Clone, PartialEq, Eq)]
pub struct ConnectConfig {
    pub channel: Option<String>,
    pub oauth: Option<String>,
    pub nick: Option<String>,
}

/// A `ConnectConfig` as plain sequences of characters.
pub struct ConnectConfigView {
    pub channel: Option<Seq<char>>,
    pub oauth: Option<Seq<char>>,
    pub nick: Option<Seq<char>>,
}

impl View for ConnectConfig {
    type V = ConnectConfigView;

    open spec fn view(&self) -> ConnectConfigView {
        ConnectConfigView {
            channel: view_of(self.channel),
            oauth: view_of(self.oauth),
            nick: view_of(self.nick),
        }
    }
}

impl Default for ConnectConfig {
    /// Credentials with nothing set.
    fn default() -> (r: ConnectConfig)
        ensures
            r.channel is None,
            r.oauth is None,
            r.nick is None,
    {
        ConnectConfig { channel: None, oauth: None, nick: None }
    }
}

impl From<Config> for ConnectConfig {
    /// The credentials are the three parts of the configuration, as they are.
    fn from(value: Config) -> (r: ConnectConfig) {
        ConnectConfig { channel: value.channel, oauth: value.oauth, nick: value.nick }
    }
}

impl vstd::std_specs::convert::FromSpecImpl<Config> for ConnectConfig {
    open spec fn obeys_from_spec() -> bool {
        true
    }

    open spec fn from_spec(value: Config) -> ConnectConfig {
        ConnectConfig { channel: value.channel, oauth: value.oauth, nick: value.nick }
    }
}


/// What is to be done for a join: the session to cancel, where one is live,
/// and the new session to start, with its credentials.
#[derive(Debug, Clone, PartialEq, Eq)]
pub struct Launch {
    pub cancel: Option<u64>,
    pub generation: u64,
    pub credentials: ConnectConfig,
}

/// What becomes of a line that the host wants to say.
#[derive(Debug, Clone, PartialEq, Eq)]
pub enum Dispatch {
    /// The line goes to the session of this generation.
    Forward { generation: u64, line: String },
    /// No session is installed; the line goes nowhere.
    Dropped,
}

/// The supervisor's state: the generation of the session started last, and
/// whether that session is still installed. At most one session is installed
/// at a time, and it is always the one started last.
#[derive(Debug)]
pub struct Controller {
    generation: u64,
    live: bool,
}

/// A `Controller` as plain values.
pub struct ControllerView {
    pub generation: u64,
    pub live: bool,
}

/// The generation of the session that is installed, if one is.
pub open spec fn current(c: ControllerView) -> Option<u64> {
    if c.live {
        Some(c.generation)
    } else {
        None
    }
}

/// The generation that follows `g`. Generations go round after the last
/// number; two that follow each other always differ.
pub open spec fn next_generation(g: u64) -> u64 {
    if g == u64::MAX {
        0
    } else {
        (g + 1) as u64
    }
}

/// The state after a join: a new generation, installed.
pub open spec fn after_join(c: ControllerView) -> ControllerView {
    ControllerView { generation: next_generation(c.generation), live: true }
}

/// The state after a leave: nothing installed.
pub open spec fn after_leave(c: ControllerView) -> ControllerView {
    ControllerView { generation: c.generation, live: false }
}

impl View for Controller {
    type V = ControllerView;

    closed spec fn view(&self) -> ControllerView {
        ControllerView { generation: self.generation, live: self.live }
    }
}

impl Default for Controller {
    /// A supervisor with no session.
    fn default() -> (r: Controller)
        ensures
            current(r@) is None,
    {
        Controller::new()
    }
}

impl Controller {
    /// A supervisor with no session.
    pub fn new() -> (r: Controller)
        ensures
            current(r@) is None,
    {
        Controller { generation: 0, live: false }
    }

    /// The generation of the session that is installed, if one is.
    pub fn session(&self) -> (r: Option<u64>)
        ensures
            r == current(self@),
    {
        if self.live {
            Some(self.generation)
        } else {
            None
        }
    }

    /// Routes a line: to the installed session, or nowhere when none is
    /// installed. The line itself is not changed.
    pub fn send(&self, chat_message: String) -> (r: Dispatch)
        ensures
            r is Dropped <==> current(self@) is None,
            r matches Dispatch::Forward { generation, line } ==> current(self@) == Some(generation)
                && line@ == chat_message@,
    {
        if self.live {
            Dispatch::Forward { generation: self.generation, line: chat_message }
        } else {
            Dispatch::Dropped
        }
    }

    /// Starts a new session generation with the given credentials. A session
    /// that is installed is cancelled, not waited for.
    pub fn join(&mut self, connect_config: ConnectConfig) -> (r: Launch)
        ensures
            final(self)@ == after_join(old(self)@),
            r.cancel == current(old(self)@),
            current(final(self)@) == Some(r.generation),
            r.cancel != Some(r.generation),
            r.credentials == connect_config,
    {
        let cancel = self.session();
        self.generation = if self.generation == u64::MAX {
            0
        } else {
            self.generation + 1
        };
        self.live = true;
        Launch { cancel, generation: self.generation, credentials: connect_config }
    }

    /// Cancels the installed session, if there is one, and forgets it. The
    /// answer is the generation to cancel.
    pub fn leave(&mut self) -> (r: Option<u64>)
        ensures
            final(self)@ == after_leave(old(self)@),
            r == current(old(self)@),
    {
        let cancel = self.session();
        self.live = false;
        cancel
    }
}

/// A join while a session is installed cancels that session and installs
/// another one: the new generation differs from the cancelled one, and it is
/// the one that lines are routed to from then on.
pub proof fn lemma_join_replaces_session(c: ControllerView)
    requires
        current(c) is Some,
    ensures
        current(after_join(c)) is Some,
        current(after_join(c)) != current(c),
{
}

/// After a leave no session is installed, so a line handed to `send` goes
/// nowhere; the next join installs a session again.
pub proof fn lemma_leave_silences_send(c: ControllerView)
    ensures
        current(after_leave(c)) is None,
        current(after_join(after_leave(c))) is Some,
{
}

} // verus!
