use std::sync::mpsc::channel;

use georuggine::credentials::hash_password;
use georuggine::model::{Coordinate, ServerMessage, UserStatus};
use georuggine::state::ServerState;
use georuggine::time::Timestamp;

fn at(secs: i64) -> Timestamp {
    Timestamp::new(secs, 0).unwrap()
}

fn coord(lat: i64, lon: i64) -> Coordinate {
    Coordinate { lat, lon }
}

fn logged_in_state(name: &str) -> (ServerState, std::sync::mpsc::Receiver<ServerMessage>) {
    let mut s = ServerState::new();
    assert!(s.register(name.to_string(), "pw".to_string()));
    let (tx, rx) = channel();
    assert!(s.login(name, "pw", tx));
    (s, rx)
}

#[test]
fn hash_is_sha256_hex() {
    assert_eq!(
        hash_password("password"),
        "5e884898da28047151d0e56f8dc6292773603d0d6aabbdd62a11ef721d1542d8"
    );
    assert_eq!(
        hash_password("pässword"),
        "3478267b5612791b40988906b3a7897eb6ab501e04b95ed32f99d0afdf669d9c"
    );
}

#[test]
fn register_twice_fails() {
    let mut s = ServerState::new();
    assert!(s.register("anna".to_string(), "secret".to_string()));
    assert!(!s.register("anna".to_string(), "other".to_string()));
    assert_eq!(s.password_hash("anna").unwrap(), &hash_password("secret"));
    let session = s.session("anna").unwrap();
    assert_eq!(session.status, UserStatus::Disconnected);
    assert!(session.connection_sender.is_none());
}

#[test]
fn login_checks_password() {
    let mut s = ServerState::new();
    assert!(s.register("anna".to_string(), "secret".to_string()));
    let (tx, _rx) = channel();
    assert!(!s.login("anna", "wrong", tx.clone()));
    assert_eq!(s.session("anna").unwrap().status, UserStatus::Disconnected);
    assert!(!s.login("bruno", "secret", tx.clone()));
    assert!(s.login("anna", "secret", tx));
    let session = s.session("anna").unwrap();
    assert_eq!(session.status, UserStatus::Stationary);
    assert!(session.connection_sender.is_some());
    assert_eq!(session.last_coord, None);
}

#[test]
fn position_reports_drive_the_state_machine() {
    let (mut s, _rx) = logged_in_state("anna");
    let a = coord(45_000_000_000, 7_000_000_000);
    let b = coord(45_000_000_101, 7_000_000_000);
    let near_b = coord(45_000_000_001, 7_000_000_100);
    assert_eq!(s.update_position("anna", a, at(1000)), UserStatus::Stationary);
    assert_eq!(s.update_position("anna", a, at(1030)), UserStatus::Stationary);
    assert_eq!(s.update_position("anna", b, at(1060)), UserStatus::Moving);
    assert_eq!(s.update_position("anna", near_b, at(1239)), UserStatus::Moving);
    assert_eq!(s.update_position("anna", b, at(1240)), UserStatus::Stationary);
    assert_eq!(s.session("anna").unwrap().last_changed, Some(at(1240)));
    assert_eq!(s.update_position("anna", b, at(2000)), UserStatus::Stationary);
    let t = s.trajectory("anna").unwrap();
    assert_eq!(t.len(), 6);
    assert_eq!(t[2].status, UserStatus::Moving);
    assert_eq!(t[4].coord, b);
    assert_eq!(t[4].status, UserStatus::Stationary);
}

#[test]
fn reports_without_active_session_are_ignored() {
    let mut s = ServerState::new();
    let a = coord(1, 2);
    assert_eq!(s.update_position("ghost", a, at(5)), UserStatus::Disconnected);
    assert!(s.register("anna".to_string(), "pw".to_string()));
    assert_eq!(s.update_position("anna", a, at(5)), UserStatus::Disconnected);
    assert!(s.trajectory("anna").is_none());
    let (tx, _rx) = channel();
    assert!(s.login("anna", "pw", tx));
    assert_eq!(s.update_position("anna", a, at(6)), UserStatus::Stationary);
    s.disconnect("anna");
    assert_eq!(s.session("anna").unwrap().status, UserStatus::Disconnected);
    assert_eq!(s.session("anna").unwrap().last_coord, Some(a));
    assert_eq!(s.update_position("anna", a, at(7)), UserStatus::Disconnected);
    assert_eq!(s.trajectory("anna").unwrap().len(), 1);
}

#[test]
fn sending_to_a_closed_channel_disconnects() {
    let (mut s, rx) = logged_in_state("anna");
    let msg = ServerMessage::TextMessage { sender: "S".to_string(), text: "hi".to_string() };
    assert!(s.send_message("anna", &msg));
    match rx.try_recv().unwrap() {
        ServerMessage::TextMessage { text, .. } => assert_eq!(text, "hi"),
        other => panic!("unexpected {:?}", other),
    }
    drop(rx);
    assert!(!s.send_message("anna", &msg));
    assert_eq!(s.session("anna").unwrap().status, UserStatus::Disconnected);
    assert!(!s.send_message("anna", &msg));
    assert!(!s.send_message("nobody", &msg));
}

#[test]
fn broadcast_reaches_connected_users_only() {
    let mut s = ServerState::new();
    for name in ["a", "b", "c"] {
        assert!(s.register(name.to_string(), "pw".to_string()));
    }
    let (tx_a, rx_a) = channel();
    let (tx_b, rx_b) = channel();
    assert!(s.login("a", "pw", tx_a));
    assert!(s.login("b", "pw", tx_b));
    drop(rx_b);
    let msg = ServerMessage::TextMessage { sender: "S".to_string(), text: "all".to_string() };
    s.broadcast_message(&msg);
    assert!(rx_a.try_recv().is_ok());
    assert_eq!(s.session("a").unwrap().status, UserStatus::Stationary);
    assert_eq!(s.session("b").unwrap().status, UserStatus::Disconnected);
    assert_eq!(s.session("c").unwrap().status, UserStatus::Disconnected);
}

#[test]
fn users_file_round_trip() {
    let mut s = ServerState::new();
    assert!(s.register("anna".to_string(), "one".to_string()));
    assert!(s.register("bruno".to_string(), "two".to_string()));
    let lines = s.user_lines();
    assert_eq!(lines.len(), 2);
    assert_eq!(lines[0], format!("anna:{}", hash_password("one")));
    let mut loaded = ServerState::new();
    let mut with_noise = lines.clone();
    with_noise.push("no colon here".to_string());
    with_noise.push("a:b:c".to_string());
    loaded.load_user_lines(&with_noise);
    assert_eq!(loaded.user_lines(), lines);
    assert_eq!(loaded.session("bruno").unwrap().status, UserStatus::Disconnected);
    assert!(loaded.session("a").is_none());
    let (tx, _rx) = channel();
    assert!(loaded.login("bruno", "two", tx));
}

#[test]
fn listing_sessions() {
    let mut s = ServerState::new();
    assert!(s.register("x".to_string(), "1".to_string()));
    assert!(s.register("y".to_string(), "2".to_string()));
    assert_eq!(s.session_count(), 2);
    let (name, session) = s.session_entry(1);
    assert_eq!(name, "y");
    assert_eq!(session.status, UserStatus::Disconnected);
}
