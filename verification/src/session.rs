//! The protocol session of one connection.
//!
//! A session is what one socket needs to know: the credentials it was opened
//! with, whether the server has agreed to send tags, and the content of the
//! last chat line that went out. The caller owns the socket. It sends the
//! lines of [`Session::handshake`], hands every frame that arrives to
//! [`Session::receive`] and every line that the host wants to say to
//! [`Session::transmit`], and does what they answer.

use vstd::prelude::*;
use vstd::string::{StringExecFns, StringSliceAdditionalSpecFns};
use vstd::utf8::{decode_utf8, encode_utf8_decode_utf8, valid_utf8};
use crate::chat::{ChatMessage, ChatMessageView};
use crate::chat_controller::ConnectConfig;
use crate::parse::{
    format_user_message, format_user_message_with_tags, plain_message, tagged_message,
};
use crate::text::{
    chars_of, collect_string, contains, contains_chars, ends_with, ends_with_chars, first_line,
};

verus! {

/// `core::str::from_utf8` reads bytes as text. It succeeds exactly on
/// well-formed UTF-8, and the text it gives is made of the very bytes given.
#[verifier::external_body]
fn utf8_text<'a>(bytes: &'a [u8]) -> (r: Option<&'a str>)
    ensures
        r is Some <==> valid_utf8(bytes@),
        r matches Some(s) ==> s.spec_bytes() == bytes@,
{
    match core::str::from_utf8(bytes) {
        Ok(s) => Some(s),
        Err(_) => None,
    }
}

/// The text of a frame's payload: the payload read as UTF-8 where it is
/// well-formed, else one character for each byte, with the byte's value.
pub open spec fn decoded(bytes: Seq<u8>) -> Seq<char> {
    if valid_utf8(bytes) {
        decode_utf8(bytes)
    } else {
        Seq::new(bytes.len(), |i: int| bytes[i] as char)
    }
}

/// Reads a frame's payload as text; no payload is dropped.
pub fn decode_payload(payload: &[u8]) -> (r: String)
    ensures
        r@ == decoded(payload@),
{
    match utf8_text(payload) {
        Some(s) => {
            proof {
                encode_utf8_decode_utf8(s@);
            }
            s.to_owned()
        },
        None => {
            let mut r = String::new();
            let mut i: usize = 0;
            while i < payload.len()
                invariant
                    i <= payload.len(),
                    r@ == Seq::new(i as nat, |k: int| payload@[k] as char),
                decreases payload.len() - i,
            {
                r.push(payload[i] as char);
                i += 1;
                assert(r@ =~= Seq::new(i as nat, |k: int| payload@[k] as char));
            }
            r
        },
    }
}

/// What a frame from the server turned out to be.
#[derive(Debug, Clone, PartialEq, Eq)]
pub enum Inbound {
    /// The server agreed to send tags from now on.
    TagsAcknowledged,
    /// A chat message, to be handed to the host.
    Message(ChatMessage),
    /// A line with the chat marker that holds no chat message.
    Unreadable,
    /// Anything else the server says; worth a diagnostic line at most.
    Noise(String),
}

/// An `Inbound` as plain sequences of characters.
pub enum InboundView {
    TagsAcknowledged,
    Message(ChatMessageView),
    Unreadable,
    Noise(Seq<char>),
}

impl View for Inbound {
    type V = InboundView;

    open spec fn view(&self) -> InboundView {
        match self {
            Inbound::TagsAcknowledged => InboundView::TagsAcknowledged,
            Inbound::Message(m) => InboundView::Message(m@),
            Inbound::Unreadable => InboundView::Unreadable,
            Inbound::Noise(text) => InboundView::Noise(text@),
        }
    }
}

/// What the text of one frame is, given whether tags were agreed before.
///
/// An acknowledgement of the tags capability is just that. Otherwise a text
/// with the chat marker is read as a tagged line once tags were agreed and as
/// an untagged line before; the line read is the text up to its terminator.
/// All other text is noise.
pub open spec fn dispatch(text: Seq<char>, tags_allowed: bool) -> InboundView {
    if contains(text, "ACK :twitch.tv/tags"@) {
        InboundView::TagsAcknowledged
    } else if contains(text, "PRIVMSG"@) {
        let read = if tags_allowed {
            tagged_message(first_line(text))
        } else {
            plain_message(first_line(text))
        };
        match read {
            Some(m) => InboundView::Message(m),
            None => InboundView::Unreadable,
        }
    } else {
        InboundView::Noise(text)
    }
}

/// Sorts one frame's text, and notes an acknowledgement of the tags
/// capability in `read_tags_allowed`.
pub fn handle_websocket_message(msg: &str, read_tags_allowed: &mut bool) -> (r: Inbound)
    ensures
        r@ == dispatch(msg@, *old(read_tags_allowed)),
        *final(read_tags_allowed) == (*old(read_tags_allowed) || r is TagsAcknowledged),
{
    let text = chars_of(msg);
    let ack = chars_of("ACK :twitch.tv/tags");
    let marker = chars_of("PRIVMSG");
    if contains_chars(&text, &ack) {
        *read_tags_allowed = true;
        Inbound::TagsAcknowledged
    } else if contains_chars(&text, &marker) {
        let read = if *read_tags_allowed {
            format_user_message_with_tags(msg)
        } else {
            format_user_message(msg)
        };
        match read {
            Some(m) => Inbound::Message(m),
            None => Inbound::Unreadable,
        }
    } else {
        Inbound::Noise(msg.to_owned())
    }
}

/// The invisible marker that sets a repeated line apart from the one before:
/// a space and the character U+E0000.
pub open spec fn marker() -> Seq<char> {
    " \u{E0000}"@
}

/// `s` with the marker taken off its end where it ends with it, and put at its
/// end where it does not.
pub open spec fn toggle_marker(s: Seq<char>) -> Seq<char> {
    if ends_with(s, marker()) {
        s.subrange(0, s.len() - marker().len())
    } else {
        s + marker()
    }
}

/// The content that goes out when the host asks for `line` and the content
/// sent last was `last`.
///
/// An empty line asks for the last content once more. Content equal to the
/// last has its marker toggled, so that no two contents in a row are equal.
pub open spec fn outgoing_content(last: Seq<char>, line: Seq<char>) -> Seq<char> {
    let wanted = if line.len() == 0 {
        last
    } else {
        line
    };
    if wanted == last {
        toggle_marker(wanted)
    } else {
        wanted
    }
}

/// The chat line that carries `content` to `channel`.
pub open spec fn chat_line(channel: Seq<char>, content: Seq<char>) -> Seq<char> {
    "PRIVMSG #"@ + channel + " :"@ + content
}

/// `given` where there is one, else `default`.
pub open spec fn or_default(given: Option<Seq<char>>, default: Seq<char>) -> Seq<char> {
    match given {
        Some(text) => text,
        None => default,
    }
}

/// The token used where the credentials hold none.
pub open spec fn default_token() -> Seq<char> {
    "blah"@
}

/// The nickname used where the credentials hold none.
pub open spec fn default_nick() -> Seq<char> {
    "justinfan354678"@
}

/// The state of one connection.
#[derive(Debug)]
pub struct Session {
    channel: String,
    token: String,
    nick: String,
    tags_enabled: bool,
    last_sent: String,
}

/// A `Session` as plain values.
pub struct SessionView {
    pub channel: Seq<char>,
    pub token: Seq<char>,
    pub nick: Seq<char>,
    pub tags_enabled: bool,
    pub last_sent: Seq<char>,
}

impl View for Session {
    type V = SessionView;

    closed spec fn view(&self) -> SessionView {
        SessionView {
            channel: self.channel@,
            token: self.token@,
            nick: self.nick@,
            tags_enabled: self.tags_enabled,
            last_sent: self.last_sent@,
        }
    }
}

impl Session {
    /// A fresh session for the given credentials. There is none without a
    /// channel; a missing token or nickname is replaced by its default.
    pub fn open(config: ConnectConfig) -> (r: Option<Session>)
        ensures
            r is Some <==> config@.channel is Some,
            r matches Some(s) ==> s@ == (SessionView {
                channel: config@.channel->0,
                token: or_default(config@.oauth, default_token()),
                nick: or_default(config@.nick, default_nick()),
                tags_enabled: false,
                last_sent: Seq::<char>::empty(),
            }),
    {
        let channel = match config.channel {
            Some(channel) => channel,
            None => { return None; },
        };
        let token = match config.oauth {
            Some(token) => token,
            None => "blah".to_owned(),
        };
        let nick = match config.nick {
            Some(nick) => nick,
            None => "justinfan354678".to_owned(),
        };
        Some(Session { channel, token, nick, tags_enabled: false, last_sent: String::new() })
    }

    /// The four lines that open the conversation, in the order in which they
    /// are sent: the token, the nickname, the channel to join, and the request
    /// for tags.
    pub fn handshake(&self) -> (lines: Vec<String>)
        ensures
            lines@.len() == 4,
            lines[0]@ == "PASS oauth:"@ + self@.token,
            lines[1]@ == "NICK "@ + self@.nick,
            lines[2]@ == "JOIN #"@ + self@.channel,
            lines[3]@ == "CAP REQ :twitch.tv/tags"@,
    {
        let mut lines: Vec<String> = Vec::new();
        lines.push("PASS oauth:".to_owned().concat(self.token.as_str()));
        lines.push("NICK ".to_owned().concat(self.nick.as_str()));
        lines.push("JOIN #".to_owned().concat(self.channel.as_str()));
        lines.push("CAP REQ :twitch.tv/tags".to_owned());
        lines
    }

    /// Takes one frame from the server: reads its payload as text, sorts it,
    /// and remembers an acknowledgement of the tags capability.
    pub fn receive(&mut self, payload: &[u8]) -> (r: Inbound)
        ensures
            r@ == dispatch(decoded(payload@), old(self)@.tags_enabled),
            final(self)@ == (SessionView {
                tags_enabled: old(self)@.tags_enabled || r is TagsAcknowledged,
                ..old(self)@
            }),
    {
        let text = decode_payload(payload);
        let mut allowed = self.tags_enabled;
        let r = handle_websocket_message(text.as_str(), &mut allowed);
        self.tags_enabled = allowed;
        r
    }

    /// Takes one line that the host wants to say and gives the chat line to
    /// put on the socket. The content sent is remembered, and it always
    /// differs from the content sent before.
    pub fn transmit(&mut self, line: String) -> (wire: String)
        ensures
            final(self)@ == (SessionView {
                last_sent: outgoing_content(old(self)@.last_sent, line@),
                ..old(self)@
            }),
            wire@ == chat_line(old(self)@.channel, final(self)@.last_sent),
            final(self)@.last_sent != old(self)@.last_sent,
    {
        proof {
            reveal_strlit(" \u{E0000}");
            lemma_outgoing_differs(self@.last_sent, line@);
        }
        let wanted = if line.as_str().is_empty() {
            self.last_sent.clone()
        } else {
            line
        };
        let content = if wanted == self.last_sent {
            let chars = chars_of(wanted.as_str());
            let mark = chars_of(" \u{E0000}");
            if ends_with_chars(&chars, &mark) {
                collect_string(&chars, 0, chars.len() - 2)
            } else {
                wanted.concat(" \u{E0000}")
            }
        } else {
            wanted
        };
        let wire = "PRIVMSG #".to_owned().concat(self.channel.as_str()).concat(" :").concat(
            content.as_str(),
        );
        self.last_sent = content;
        wire
    }
}

/// Toggling the marker always changes the content.
pub proof fn lemma_toggle_changes(s: Seq<char>)
    ensures
        toggle_marker(s) != s,
        !ends_with(s, marker()) ==> toggle_marker(toggle_marker(s)) == s,
{
    reveal_strlit(" \u{E0000}");
    assert(toggle_marker(s).len() != s.len());
    if !ends_with(s, marker()) {
        let t = s + marker();
        assert(t.subrange(t.len() - marker().len(), t.len() as int) =~= marker());
        assert(t.subrange(0, t.len() - marker().len()) =~= s);
    }
}

/// Whatever the host asks for, the content that goes out differs from the
/// content that went out before.
pub proof fn lemma_outgoing_differs(last: Seq<char>, line: Seq<char>)
    ensures
        outgoing_content(last, line) != last,
{
    lemma_toggle_changes(last);
}

/// The same text sent again and again goes out with and without the marker in
/// turn: no two contents in a row are equal, nor are the chat lines that
/// carry them, and every other one is the same. Where the text is not what
/// went out just before, it goes out unchanged first and with its marker
/// toggled next.
pub proof fn lemma_repeat_alternates(channel: Seq<char>, last: Seq<char>, text: Seq<char>)
    requires
        text.len() > 0,
    ensures
        ({
            let first = outgoing_content(last, text);
            let second = outgoing_content(first, text);
            let third = outgoing_content(second, text);
            &&& first != second
            &&& second != third
            &&& third == first
            &&& chat_line(channel, first) != chat_line(channel, second)
            &&& chat_line(channel, second) != chat_line(channel, third)
            &&& last != text ==> first == text && second == toggle_marker(text)
            &&& last != text && !ends_with(text, marker()) ==> second == text + marker()
        }),
{
    lemma_toggle_changes(text);
    let first = outgoing_content(last, text);
    let second = outgoing_content(first, text);
    let third = outgoing_content(second, text);
    if chat_line(channel, first) == chat_line(channel, second) {
        lemma_chat_line_tells_content(channel, first, second);
    }
    if chat_line(channel, second) == chat_line(channel, third) {
        lemma_chat_line_tells_content(channel, second, third);
    }
}

/// Two chat lines for one channel are equal only where their contents are:
/// contents that differ go over the wire as lines that differ.
pub proof fn lemma_chat_line_tells_content(channel: Seq<char>, a: Seq<char>, b: Seq<char>)
    requires
        chat_line(channel, a) == chat_line(channel, b),
    ensures
        a == b,
{
    let prefix = "PRIVMSG #"@ + channel + " :"@;
    assert((prefix + a).subrange(prefix.len() as int, (prefix + a).len() as int) =~= a);
    assert((prefix + b).subrange(prefix.len() as int, (prefix + b).len() as int) =~= b);
}

/// An empty line asks for the content sent last once more: what goes out is
/// that content with its marker toggled, the same as if the host had asked
/// for that content by its words.
pub proof fn lemma_empty_line_repeats(last: Seq<char>)
    ensures
        outgoing_content(last, Seq::<char>::empty()) == toggle_marker(last),
        outgoing_content(last, Seq::<char>::empty()) == outgoing_content(last, last),
{
}

} // verus!
