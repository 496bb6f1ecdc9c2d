use ttvy_core::chat::ChatMessage;
use ttvy_core::chat_controller::ConnectConfig;
use ttvy_core::session::{decode_payload, handle_websocket_message, Inbound, Session};

const MARKER: &str = " \u{E0000}";

fn credentials(channel: &str) -> ConnectConfig {
    ConnectConfig { channel: Some(channel.to_string()), oauth: None, nick: None }
}

fn session(channel: &str) -> Session {
    Session::open(credentials(channel)).unwrap()
}

#[test]
fn no_session_without_channel() {
    let config = ConnectConfig {
        channel: None,
        oauth: Some("t".to_string()),
        nick: Some("n".to_string()),
    };
    assert!(Session::open(config).is_none());
    assert!(Session::open(ConnectConfig::default()).is_none());
}

#[test]
fn handshake_with_defaults() {
    let lines = session("rust").handshake();
    assert_eq!(
        lines,
        vec![
            "PASS oauth:blah".to_string(),
            "NICK justinfan354678".to_string(),
            "JOIN #rust".to_string(),
            "CAP REQ :twitch.tv/tags".to_string(),
        ]
    );
}

#[test]
fn handshake_with_given_credentials() {
    let config = ConnectConfig {
        channel: Some("chan".to_string()),
        oauth: Some("secret".to_string()),
        nick: Some("me".to_string()),
    };
    let lines = Session::open(config).unwrap().handshake();
    assert_eq!(
        lines,
        vec![
            "PASS oauth:secret".to_string(),
            "NICK me".to_string(),
            "JOIN #chan".to_string(),
            "CAP REQ :twitch.tv/tags".to_string(),
        ]
    );
}

#[test]
fn first_send_goes_out_as_it_is() {
    let mut s = session("c");
    assert_eq!(s.transmit("hello".to_string()), "PRIVMSG #c :hello");
}

#[test]
fn same_text_twice_alternates_the_marker() {
    let mut s = session("c");
    let first = s.transmit("hello".to_string());
    let second = s.transmit("hello".to_string());
    let third = s.transmit("hello".to_string());
    let fourth = s.transmit("hello".to_string());
    assert_eq!(first, "PRIVMSG #c :hello");
    assert_eq!(second, format!("PRIVMSG #c :hello{}", MARKER));
    assert_eq!(third, "PRIVMSG #c :hello");
    assert_eq!(fourth, format!("PRIVMSG #c :hello{}", MARKER));
    assert_ne!(first, second);
    assert_ne!(second, third);
}

#[test]
fn different_texts_go_out_unchanged() {
    let mut s = session("c");
    assert_eq!(s.transmit("a".to_string()), "PRIVMSG #c :a");
    assert_eq!(s.transmit("b".to_string()), "PRIVMSG #c :b");
    assert_eq!(s.transmit("a".to_string()), "PRIVMSG #c :a");
}

#[test]
fn empty_line_repeats_the_last_content() {
    let mut s = session("c");
    assert_eq!(s.transmit("hello".to_string()), "PRIVMSG #c :hello");
    assert_eq!(s.transmit(String::new()), format!("PRIVMSG #c :hello{}", MARKER));
    assert_eq!(s.transmit(String::new()), "PRIVMSG #c :hello");
    assert_eq!(s.transmit(String::new()), format!("PRIVMSG #c :hello{}", MARKER));
}

#[test]
fn empty_line_first_sends_the_marker_alone() {
    let mut s = session("c");
    assert_eq!(s.transmit(String::new()), format!("PRIVMSG #c :{}", MARKER));
    assert_eq!(s.transmit(String::new()), "PRIVMSG #c :");
}

#[test]
fn marker_inside_the_text_is_left_alone() {
    let mut s = session("c");
    let text = format!("a{}b", MARKER);
    assert_eq!(s.transmit(text.clone()), format!("PRIVMSG #c :{}", text));
    assert_eq!(s.transmit(text.clone()), format!("PRIVMSG #c :{}{}", text, MARKER));
    assert_eq!(s.transmit(text.clone()), format!("PRIVMSG #c :{}", text));
}

#[test]
fn text_that_ends_with_the_marker_loses_it_on_repeat() {
    let mut s = session("c");
    let text = format!("hi{}", MARKER);
    assert_eq!(s.transmit(text.clone()), format!("PRIVMSG #c :{}", text));
    assert_eq!(s.transmit(text.clone()), "PRIVMSG #c :hi");
}

#[test]
fn payload_of_valid_utf8_is_used_as_it_is() {
    assert_eq!(decode_payload("gr\u{fc}n \u{1F600}".as_bytes()), "gr\u{fc}n \u{1F600}");
    assert_eq!(decode_payload(b""), "");
    assert_eq!(decode_payload(b"PING :tmi.twitch.tv\r\n"), "PING :tmi.twitch.tv\r\n");
}

#[test]
fn payload_of_broken_utf8_maps_bytes_to_characters() {
    assert_eq!(decode_payload(&[0x68, 0xff, 0x69]), "h\u{ff}i");
    assert_eq!(decode_payload(&[0xc3]), "\u{c3}");
    assert_eq!(decode_payload(&[0xe9, 0x20, 0x80]), "\u{e9} \u{80}");
}

#[test]
fn acknowledgement_switches_tags_on() {
    let mut allowed = false;
    let got = handle_websocket_message(":tmi.twitch.tv CAP * ACK :twitch.tv/tags\r\n", &mut allowed);
    assert_eq!(got, Inbound::TagsAcknowledged);
    assert!(allowed);
}

#[test]
fn untagged_line_before_acknowledgement() {
    let mut allowed = false;
    let got = handle_websocket_message(":nick!x@y PRIVMSG #c :hello\r\n", &mut allowed);
    assert_eq!(
        got,
        Inbound::Message(ChatMessage {
            author: "nick".to_string(),
            color: None,
            message: "hello".to_string(),
        })
    );
    assert!(!allowed);
}

#[test]
fn tagged_line_after_acknowledgement() {
    let mut allowed = true;
    let got = handle_websocket_message(
        "display-name=Bob;color=#FF0000 :nick!x PRIVMSG #c :hi :there\r\n",
        &mut allowed,
    );
    assert_eq!(
        got,
        Inbound::Message(ChatMessage {
            author: "Bob".to_string(),
            color: Some("#FF0000".to_string()),
            message: "hi :there".to_string(),
        })
    );
    assert!(allowed);
}

#[test]
fn line_without_terminator_is_read_whole() {
    let mut allowed = false;
    let got = handle_websocket_message(":nick!x@y PRIVMSG #c :hello", &mut allowed);
    assert_eq!(
        got,
        Inbound::Message(ChatMessage {
            author: "nick".to_string(),
            color: None,
            message: "hello".to_string(),
        })
    );
}

#[test]
fn only_the_first_line_of_a_frame_is_read() {
    let mut allowed = false;
    let got = handle_websocket_message(
        ":a!x PRIVMSG #c :one\r\n:b!x PRIVMSG #c :two\r\n",
        &mut allowed,
    );
    assert_eq!(
        got,
        Inbound::Message(ChatMessage {
            author: "a".to_string(),
            color: None,
            message: "one".to_string(),
        })
    );
}

#[test]
fn chat_line_that_cannot_be_read_is_dropped() {
    let mut allowed = true;
    let got = handle_websocket_message(":nick!x@y PRIVMSG #c :hello\r\n", &mut allowed);
    assert_eq!(got, Inbound::Unreadable);
    let mut allowed = false;
    let got = handle_websocket_message(":tmi.twitch.tv PRIVMSG #c :hello\r\n", &mut allowed);
    assert_eq!(got, Inbound::Unreadable);
}

#[test]
fn other_lines_are_noise() {
    let mut allowed = false;
    let got = handle_websocket_message("PING :tmi.twitch.tv\r\n", &mut allowed);
    assert_eq!(got, Inbound::Noise("PING :tmi.twitch.tv\r\n".to_string()));
    assert!(!allowed);
    let got = handle_websocket_message("", &mut allowed);
    assert_eq!(got, Inbound::Noise(String::new()));
}

#[test]
fn session_reads_frames_in_turn() {
    let mut s = session("c");
    let tagged = b"display-name=Bob :nick!x PRIVMSG #c :hi\r\n";
    assert_eq!(s.receive(tagged), Inbound::Unreadable);
    assert_eq!(
        s.receive(b":tmi.twitch.tv CAP * ACK :twitch.tv/tags\r\n"),
        Inbound::TagsAcknowledged
    );
    assert_eq!(
        s.receive(tagged),
        Inbound::Message(ChatMessage {
            author: "Bob".to_string(),
            color: None,
            message: "hi".to_string(),
        })
    );
    assert_eq!(s.receive(&[0xff, 0xfe]), Inbound::Noise("\u{ff}\u{fe}".to_string()));
}

#[test]
fn receiving_does_not_disturb_sending() {
    let mut s = session("c");
    assert_eq!(s.transmit("x".to_string()), "PRIVMSG #c :x");
    let _ = s.receive(b":nick!x@y PRIVMSG #c :x\r\n");
    assert_eq!(s.transmit("x".to_string()), format!("PRIVMSG #c :x{}", MARKER));
}
