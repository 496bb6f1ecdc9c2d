use ttvy_core::chat::Chat;
use ttvy_core::chat_controller::{ConnectConfig, Controller, Dispatch};
use ttvy_core::config::Config;

fn credentials(channel: &str) -> ConnectConfig {
    ConnectConfig { channel: Some(channel.to_string()), oauth: None, nick: None }
}

#[test]
fn new_controller_has_no_session() {
    let c = Controller::new();
    assert_eq!(c.session(), None);
    assert_eq!(c.send("hi".to_string()), Dispatch::Dropped);
    assert_eq!(Controller::default().session(), None);
}

#[test]
fn first_join_cancels_nothing() {
    let mut c = Controller::new();
    let launch = c.join(credentials("a"));
    assert_eq!(launch.cancel, None);
    assert_eq!(launch.credentials, credentials("a"));
    assert_eq!(c.session(), Some(launch.generation));
}

#[test]
fn join_while_live_cancels_the_old_session() {
    let mut c = Controller::new();
    let first = c.join(credentials("a"));
    let second = c.join(credentials("b"));
    assert_eq!(second.cancel, Some(first.generation));
    assert_ne!(second.generation, first.generation);
    assert_eq!(second.credentials.channel, Some("b".to_string()));
    assert_eq!(c.session(), Some(second.generation));
}

#[test]
fn send_goes_to_the_live_session() {
    let mut c = Controller::new();
    let launch = c.join(credentials("a"));
    assert_eq!(
        c.send("hello".to_string()),
        Dispatch::Forward { generation: launch.generation, line: "hello".to_string() }
    );
}

#[test]
fn send_after_leave_is_dropped_until_next_join() {
    let mut c = Controller::new();
    let first = c.join(credentials("a"));
    assert_eq!(c.leave(), Some(first.generation));
    assert_eq!(c.send("lost".to_string()), Dispatch::Dropped);
    assert_eq!(c.send("lost again".to_string()), Dispatch::Dropped);
    let second = c.join(credentials("a"));
    assert_eq!(second.cancel, None);
    assert_eq!(
        c.send("heard".to_string()),
        Dispatch::Forward { generation: second.generation, line: "heard".to_string() }
    );
}

#[test]
fn leave_without_session_is_harmless() {
    let mut c = Controller::new();
    assert_eq!(c.leave(), None);
    assert_eq!(c.leave(), None);
    assert_eq!(c.session(), None);
}

#[test]
fn credentials_come_from_the_configuration() {
    let config = Config {
        channel: Some("c".to_string()),
        oauth: Some("o".to_string()),
        nick: Some("n".to_string()),
    };
    let got = ConnectConfig::from(config);
    assert_eq!(got.channel, Some("c".to_string()));
    assert_eq!(got.oauth, Some("o".to_string()));
    assert_eq!(got.nick, Some("n".to_string()));
}

#[test]
fn default_configuration_is_empty() {
    let config = Config::default();
    assert_eq!(config, Config { channel: None, oauth: None, nick: None });
    let cc = ConnectConfig::default();
    assert_eq!(cc, ConnectConfig { channel: None, oauth: None, nick: None });
}

#[test]
fn snapshot_is_a_copy() {
    let config = Config { channel: Some("c".to_string()), oauth: None, nick: Some("n".to_string()) };
    assert_eq!(config.snapshot(), config);
}

#[test]
fn initial_channel_is_the_first_argument() {
    let mut config = Config::default();
    config.set_initial_channel(&vec!["prog".to_string()]);
    assert_eq!(config.channel, None);
    config.set_initial_channel(&vec![]);
    assert_eq!(config.channel, None);
    config.set_initial_channel(&vec!["prog".to_string(), "chan".to_string(), "x".to_string()]);
    assert_eq!(config.channel, Some("chan".to_string()));
    config.set_initial_channel(&vec!["prog".to_string()]);
    assert_eq!(config.channel, Some("chan".to_string()));
}

#[test]
fn token_is_stored() {
    let mut config = Config { channel: Some("c".to_string()), oauth: None, nick: None };
    config.fetch_auth_token("tok".to_string());
    assert_eq!(config.oauth, Some("tok".to_string()));
    assert_eq!(config.channel, Some("c".to_string()));
}

#[test]
fn chat_join_stores_channel_and_builds_credentials() {
    let mut chat = Chat::new();
    chat.fetch_auth_token("tok".to_string());
    let launch = chat.join("room");
    assert_eq!(launch.cancel, None);
    assert_eq!(
        launch.credentials,
        ConnectConfig { channel: Some("room".to_string()), oauth: Some("tok".to_string()), nick: None }
    );
    assert_eq!(chat.config.channel, Some("room".to_string()));
    let again = chat.join("other");
    assert_eq!(again.cancel, Some(launch.generation));
    assert_eq!(again.credentials.channel, Some("other".to_string()));
}

#[test]
fn chat_reconnect_needs_a_channel() {
    let mut chat = Chat::new();
    assert_eq!(chat.reconnect(), None);
    assert_eq!(chat.send("x".to_string()), Dispatch::Dropped);
    let first = chat.join("room");
    let second = chat.reconnect().unwrap();
    assert_eq!(second.cancel, Some(first.generation));
    assert_eq!(second.credentials.channel, Some("room".to_string()));
}

#[test]
fn chat_reconnect_after_leave() {
    let mut chat = Chat::new();
    let first = chat.join("room");
    assert_eq!(chat.leave(), Some(first.generation));
    assert_eq!(chat.send("x".to_string()), Dispatch::Dropped);
    let second = chat.reconnect().unwrap();
    assert_eq!(second.cancel, None);
    assert_eq!(
        chat.send("x".to_string()),
        Dispatch::Forward { generation: second.generation, line: "x".to_string() }
    );
}

#[test]
fn chat_init_takes_a_loaded_configuration() {
    let mut chat = Chat::new();
    chat.init(None);
    assert_eq!(chat.config, Config::default());
    let loaded = Config { channel: Some("c".to_string()), oauth: None, nick: None };
    chat.init(Some(loaded.clone()));
    assert_eq!(chat.config, loaded);
    let launch = chat.reconnect().unwrap();
    assert_eq!(launch.credentials.channel, Some("c".to_string()));
}
