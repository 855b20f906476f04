use georuggine::analysis::TimeInterval;
use georuggine::client::{
    auth_completes, auth_request, coordinate_fields, parse_auth_choice, parse_strategy_choice,
    read_console_line, AuthChoice, ConsoleLine, Lcg, ManualStrategy, Playback, PlaybackAction, PlaybackEvent,
    StrategyChoice,
};
use georuggine::model::{normalize_coordinate_text, ClientMessage, Coordinate, ServerMessage, UserStatus};
use georuggine::protocol::{chat_reply, interval_from_name, parse_server_command, ReplyRoute, ServerCommand, UsageOf};
use georuggine::records::{
    format_status_word, format_trajectory_line, format_user_line, parse_trajectory_line, parse_user_line,
};
use georuggine::state::ServerState;
use georuggine::text::{join_from, replace_char, split_words, trim};
use georuggine::time::{format_instant, parse_instant, Timestamp, RFC3339_MAX_SECS, RFC3339_MIN_SECS};

fn parse_coordinate_value(s: &str) -> Result<f64, std::num::ParseFloatError> {
    normalize_coordinate_text(s).parse::<f64>()
}

#[test]
fn test_parse_coordinate_value() {
    assert_eq!(parse_coordinate_value("45.0618513").unwrap(), 45.0618513);
    assert_eq!(parse_coordinate_value("45,0618513").unwrap(), 45.0618513);
    assert_eq!(parse_coordinate_value(" 7,6606506 ").unwrap(), 7.6606506);
}

#[test]
fn trimming_and_splitting() {
    assert_eq!(trim("  \t a b \u{3000}\n"), "a b");
    assert_eq!(trim("   "), "");
    assert_eq!(split_words("  send  anna hello\tthere "), vec!["send", "anna", "hello", "there"]);
    assert!(split_words(" \u{2003} ").is_empty());
    let ws = split_words("a b c");
    assert_eq!(join_from(&ws, 1), "b c");
    assert_eq!(join_from(&ws, 3), "");
    assert_eq!(replace_char("1,5,2", ',', '.'), "1.5.2");
}

#[test]
fn status_names() {
    assert_eq!(UserStatus::Moving.to_string(), "Moving");
    assert_eq!(UserStatus::Stationary.to_string(), "Stationary");
    assert_eq!(UserStatus::Disconnected.to_string(), "Disconnected");
    assert_eq!(format_status_word(UserStatus::Disconnected), "Stationary");
}

#[test]
fn console_commands() {
    assert!(matches!(parse_server_command("   "), ServerCommand::Empty));
    assert!(matches!(parse_server_command(" list extra"), ServerCommand::List));
    match parse_server_command("send  anna  hello   big world") {
        ServerCommand::Send { target, message } => {
            assert_eq!(target, "anna");
            assert_eq!(message, "hello big world");
        }
        other => panic!("unexpected {:?}", other),
    }
    assert!(matches!(parse_server_command("send anna"), ServerCommand::Usage(UsageOf::Send)));
    assert!(matches!(parse_server_command("broadcast"), ServerCommand::Usage(UsageOf::Broadcast)));
    match parse_server_command("broadcast hi all") {
        ServerCommand::Broadcast { message } => assert_eq!(message, "hi all"),
        other => panic!("unexpected {:?}", other),
    }
    match parse_server_command("analyze anna WEEK") {
        ServerCommand::Analyze { target, interval, interval_name } => {
            assert_eq!(target, "anna");
            assert_eq!(interval, TimeInterval::CurrentWeek);
            assert_eq!(interval_name, "week");
        }
        other => panic!("unexpected {:?}", other),
    }
    assert!(matches!(parse_server_command("analyze anna year"), ServerCommand::InvalidInterval));
    assert!(matches!(parse_server_command("analyze anna"), ServerCommand::Usage(UsageOf::Analyze)));
    assert!(matches!(parse_server_command("exit"), ServerCommand::Exit));
    assert!(matches!(parse_server_command("List"), ServerCommand::Unknown));
}

#[test]
fn user_lines() {
    assert_eq!(format_user_line("anna", "ff"), "anna:ff");
    assert_eq!(parse_user_line("anna:ff"), Some(("anna".to_string(), "ff".to_string())));
    assert_eq!(parse_user_line(":"), Some((String::new(), String::new())));
    assert_eq!(parse_user_line("a:b:c"), None);
    assert_eq!(parse_user_line("abc"), None);
}

#[test]
fn trajectory_lines() {
    let f = parse_trajectory_line("2026-07-16T12:00:00+00:00 45.1 7.2 Moving").unwrap();
    assert_eq!(f.time, Timestamp::new(1_784_203_200, 0).unwrap());
    assert_eq!(f.lat_text, "45.1");
    assert_eq!(f.lon_text, "7.2");
    assert_eq!(f.status, UserStatus::Moving);
    let g = parse_trajectory_line("1970-01-01T01:00:00.5+02:00 1 2 Disconnected").unwrap();
    assert_eq!(g.time, Timestamp::new(-3_600, 500_000_000).unwrap());
    assert_eq!(g.status, UserStatus::Stationary);
    assert!(parse_trajectory_line("yesterday 1 2 Moving").is_none());
    assert!(parse_trajectory_line("t 1 2").is_none());
    assert!(parse_trajectory_line("t 1 2 Moving x").is_none());
}

#[test]
fn trajectory_line_round_trip() {
    let t = Timestamp::new(1_784_203_200, 5_000).unwrap();
    let line = format_trajectory_line(t, "45.0618513", "7.6606506", UserStatus::Moving);
    assert_eq!(line, "2026-07-16T12:00:00.000005+00:00 45.0618513 7.6606506 Moving");
    let f = parse_trajectory_line(&line).unwrap();
    assert_eq!(f.time, t);
    assert_eq!(f.lat_text, "45.0618513");
    assert_eq!(f.lon_text, "7.6606506");
    assert_eq!(f.status, UserStatus::Moving);
}

#[test]
fn instants_read_back_in_four_digit_years() {
    let samples = [
        (RFC3339_MIN_SECS, 0u32),
        (RFC3339_MAX_SECS, 999_999_999),
        (RFC3339_MAX_SECS, 1_250_000_000),
        (-1, 1_500_000_000),
        (1_483_228_799, 1_000_000_000),
        (1_784_203_200, 120_000_000),
    ];
    for &(secs, nanos) in &samples {
        let t = Timestamp::new(secs, nanos).unwrap();
        let text = format_instant(t);
        assert!(!text.contains(char::is_whitespace));
        assert_eq!(parse_instant(&text), Some(t), "{}", text);
        let line = format_trajectory_line(t, "1.5", "-2.25", UserStatus::Stationary);
        let f = parse_trajectory_line(&line).unwrap();
        assert_eq!(f.time, t);
        assert_eq!(f.status, UserStatus::Stationary);
    }
    assert_eq!(format_instant(Timestamp::new(RFC3339_MIN_SECS, 0).unwrap()), "0000-01-01T00:00:00+00:00");
}

#[test]
fn instants_as_text() {
    let t = Timestamp::new(1_784_203_200, 0).unwrap();
    assert_eq!(format_instant(t), "2026-07-16T12:00:00+00:00");
    assert_eq!(parse_instant(&format_instant(t)), Some(t));
    let u = Timestamp::new(-1, 250_000_000).unwrap();
    assert_eq!(format_instant(u), "1969-12-31T23:59:59.250+00:00");
    let leap = Timestamp::new(-1, 1_500_000_000).unwrap();
    assert_eq!(parse_instant("1969-12-31T23:59:60.5+00:00"), Some(leap));
    assert_eq!(format_instant(leap), "1969-12-31T23:59:60.500+00:00");
    assert_eq!(parse_instant("1970-01-01T00:00:60+00:00"), Some(Timestamp::new(59, 1_000_000_000).unwrap()));
}

#[test]
fn coordinate_file_lines() {
    assert_eq!(
        coordinate_fields("00:00 45,0618513 7,6606506"),
        Some(("45,0618513".to_string(), "7,6606506".to_string()))
    );
    assert_eq!(coordinate_fields("45.05 7.66"), Some(("45.05".to_string(), "7.66".to_string())));
    assert_eq!(coordinate_fields("1 2 3 4"), Some(("1".to_string(), "2".to_string())));
    assert_eq!(coordinate_fields("  # comment"), None);
    assert_eq!(coordinate_fields("-----"), None);
    assert_eq!(coordinate_fields("   "), None);
    assert_eq!(coordinate_fields("45.0"), None);
}

#[test]
fn manual_input() {
    let m = ManualStrategy;
    assert_eq!(m.parse_input("45.1,7.2"), Some(("45.1".to_string(), "7.2".to_string())));
    assert_eq!(m.parse_input(" 45.1  7.2 "), Some(("45.1".to_string(), "7.2".to_string())));
    assert_eq!(m.parse_input("45,1 7,2"), None);
}

#[test]
fn menus() {
    assert_eq!(parse_auth_choice(" 1 \n"), AuthChoice::Register);
    assert_eq!(parse_auth_choice("2"), AuthChoice::Login);
    assert_eq!(parse_auth_choice("3"), AuthChoice::Exit);
    assert_eq!(parse_auth_choice("4"), AuthChoice::Invalid);
    match auth_request(AuthChoice::Login, " anna\n", "pw \n") {
        Some(ClientMessage::Login { username, password }) => {
            assert_eq!(username, "anna");
            assert_eq!(password, "pw");
        }
        other => panic!("unexpected {:?}", other),
    }
    assert!(auth_request(AuthChoice::Exit, "a", "b").is_none());
    assert!(auth_completes(AuthChoice::Login, true));
    assert!(!auth_completes(AuthChoice::Register, true));
    assert!(!auth_completes(AuthChoice::Login, false));
    assert_eq!(parse_strategy_choice("2"), StrategyChoice::RandomWalk);
    assert_eq!(parse_strategy_choice("x"), StrategyChoice::Invalid);
}

#[test]
fn random_walk_generator() {
    let mut g = Lcg::new();
    assert_eq!(g.next_u32(), 4_235_794_728);
    assert_eq!(g.state, 18_192_599_831_048_943_872);
    assert_eq!(g.next_u32(), 3_871_058_543);
}

#[test]
fn server_replies() {
    let mut s = ServerState::new();
    match s.handle_register("anna".to_string(), "pw".to_string()) {
        ServerMessage::AuthResponse { success, message } => {
            assert!(success);
            assert_eq!(message, "Registration successful.");
        }
        other => panic!("unexpected {:?}", other),
    }
    match s.handle_register("anna".to_string(), "pw".to_string()) {
        ServerMessage::AuthResponse { success, message } => {
            assert!(!success);
            assert_eq!(message, "Registration failed: User already exists.");
        }
        other => panic!("unexpected {:?}", other),
    }
    let (tx, _rx) = std::sync::mpsc::channel();
    match s.handle_login("anna", "nope", tx.clone()) {
        ServerMessage::AuthResponse { success, message } => {
            assert!(!success);
            assert_eq!(message, "Login failed: Invalid credentials.");
        }
        other => panic!("unexpected {:?}", other),
    }
    assert!(matches!(s.handle_login("anna", "pw", tx), ServerMessage::AuthResponse { success: true, .. }));
    let t = Timestamp::new(10, 0).unwrap();
    let c = Coordinate { lat: 1, lon: 1 };
    match s.handle_position_report(Some("anna"), c, t) {
        ServerMessage::CommandResponse { success, message } => {
            assert!(success);
            assert_eq!(message, "Position registered. Status: Stationary");
        }
        other => panic!("unexpected {:?}", other),
    }
    match s.handle_position_report(None, c, t) {
        ServerMessage::CommandResponse { success, message } => {
            assert!(!success);
            assert_eq!(message, "Unauthorized. Please login first.");
        }
        other => panic!("unexpected {:?}", other),
    }
    match chat_reply(true) {
        ServerMessage::CommandResponse { success, message } => {
            assert!(success);
            assert_eq!(message, "Message received by server.");
        }
        other => panic!("unexpected {:?}", other),
    }
}

#[test]
fn client_requests_step_by_step() {
    let mut s = ServerState::new();
    let step = s.handle_client_message(
        None,
        ClientMessage::Register { username: "anna".to_string(), password: "pw".to_string() },
        None,
    );
    assert!(step.save_users);
    assert_eq!(step.route, ReplyRoute::Socket);
    let (tx, _rx) = std::sync::mpsc::channel();
    let step = s.handle_client_message(
        None,
        ClientMessage::Login { username: "anna".to_string(), password: "pw".to_string() },
        Some(tx),
    );
    assert_eq!(step.logged_in_as.as_deref(), Some("anna"));
    assert_eq!(step.route, ReplyRoute::Connection);
    let t = Timestamp::new(100, 0).unwrap();
    let step = s.handle_client_message(
        Some("anna"),
        ClientMessage::PositionReport { coordinate: Coordinate { lat: 0, lon: 0 }, timestamp: t },
        None,
    );
    assert_eq!(step.recorded.map(|p| p.status), Some(UserStatus::Stationary));
    assert_eq!(step.transition, None);
    let t2 = Timestamp::new(130, 0).unwrap();
    let step = s.handle_client_message(
        Some("anna"),
        ClientMessage::PositionReport { coordinate: Coordinate { lat: 1000, lon: 0 }, timestamp: t2 },
        None,
    );
    assert_eq!(step.transition, Some((UserStatus::Stationary, UserStatus::Moving)));
    let step = s.handle_client_message(Some("anna"), ClientMessage::TextMessage { text: "ciao".to_string() }, None);
    assert_eq!(step.chat.as_deref(), Some("ciao"));
    let step = s.handle_client_message(None, ClientMessage::TextMessage { text: "ciao".to_string() }, None);
    assert_eq!(step.route, ReplyRoute::Socket);
    assert!(step.chat.is_none());
}

#[test]
fn coordinate_file_playback() {
    let a = Coordinate { lat: 45_061_851_300, lon: 7_660_650_600 };
    let b = Coordinate { lat: 45_057_522_600, lon: 7_661_832_200 };
    let mut p = Playback::new();
    p.begin();
    // Lines without a coordinate are skipped; the first coordinate is handed out.
    assert_eq!(p.step(PlaybackEvent::Record(None)), PlaybackAction::ReadNext);
    assert_eq!(p.step(PlaybackEvent::Record(Some(a))), PlaybackAction::Yield(Some(a)));
    p.begin();
    assert_eq!(p.step(PlaybackEvent::Record(Some(b))), PlaybackAction::Yield(Some(b)));
    // At the end of the file playback goes back to its start once.
    p.begin();
    assert_eq!(p.step(PlaybackEvent::EndOfFile), PlaybackAction::Rewind);
    assert_eq!(p.step(PlaybackEvent::Rewound), PlaybackAction::ReadNext);
    assert_eq!(p.step(PlaybackEvent::Record(Some(a))), PlaybackAction::Yield(Some(a)));
    // A file with nothing to play reaches its end twice: the last position comes again.
    p.begin();
    assert_eq!(p.step(PlaybackEvent::EndOfFile), PlaybackAction::Rewind);
    assert_eq!(p.step(PlaybackEvent::Rewound), PlaybackAction::ReadNext);
    assert_eq!(p.step(PlaybackEvent::Record(None)), PlaybackAction::ReadNext);
    assert_eq!(p.step(PlaybackEvent::EndOfFile), PlaybackAction::Yield(Some(a)));
    // Failures hand out the last position too.
    p.begin();
    assert_eq!(p.step(PlaybackEvent::EndOfFile), PlaybackAction::Rewind);
    assert_eq!(p.step(PlaybackEvent::RewindFailed), PlaybackAction::Yield(Some(a)));
    assert_eq!(p.step(PlaybackEvent::ReadFailed), PlaybackAction::Yield(Some(a)));
    let mut fresh = Playback::new();
    fresh.begin();
    assert_eq!(fresh.step(PlaybackEvent::ReadFailed), PlaybackAction::Yield(None));
}

#[test]
fn console_lines() {
    assert!(matches!(read_console_line("   \n"), ConsoleLine::Blank));
    assert!(matches!(read_console_line("quit\n"), ConsoleLine::Logout));
    assert!(matches!(read_console_line("  exit "), ConsoleLine::Logout));
    assert!(matches!(read_console_line("Quit"), ConsoleLine::Text(ref t) if t == "Quit"));
    assert!(matches!(read_console_line("  hello there \n"), ConsoleLine::Text(ref t) if t == "hello there"));
}

/// Serves one request from `lines` the way the emulator does from a file.
fn serve(p: &mut Playback, lines: &[Option<Coordinate>], pos: &mut usize) -> Option<Coordinate> {
    p.begin();
    loop {
        let event = if *pos < lines.len() {
            *pos += 1;
            PlaybackEvent::Record(lines[*pos - 1])
        } else {
            PlaybackEvent::EndOfFile
        };
        let mut action = p.step(event);
        if action == PlaybackAction::Rewind {
            *pos = 0;
            action = p.step(PlaybackEvent::Rewound);
        }
        if let PlaybackAction::Yield(c) = action {
            return c;
        }
    }
}

#[test]
fn coordinate_file_playback_cycles() {
    let text = "00:00 45,0618513 7,6606506\n# note\n00:30 45,0575226 7,6618322\n\n01:00 45.0531939 7.6630137\n";
    let lines: Vec<Option<Coordinate>> = text
        .lines()
        .map(|l| {
            coordinate_fields(l).map(|(lat, lon)| Coordinate {
                lat: (normalize_coordinate_text(&lat).parse::<f64>().unwrap() * 1e9).round() as i64,
                lon: (normalize_coordinate_text(&lon).parse::<f64>().unwrap() * 1e9).round() as i64,
            })
        })
        .collect();
    let a = Coordinate { lat: 45_061_851_300, lon: 7_660_650_600 };
    let b = Coordinate { lat: 45_057_522_600, lon: 7_661_832_200 };
    let c = Coordinate { lat: 45_053_193_900, lon: 7_663_013_700 };
    let mut p = Playback::new();
    let mut pos = 0;
    let got: Vec<Option<Coordinate>> = (0..7).map(|_| serve(&mut p, &lines, &mut pos)).collect();
    assert_eq!(got, vec![Some(a), Some(b), Some(c), Some(a), Some(b), Some(c), Some(a)]);
    let empty: Vec<Option<Coordinate>> = vec![None, None];
    let mut q = Playback::new();
    let mut pos = 0;
    assert_eq!(serve(&mut q, &empty, &mut pos), None);
    assert_eq!(serve(&mut q, &empty, &mut pos), None);
}

#[test]
fn generator_sequence_is_fixed() {
    let mut a = Lcg::new();
    let mut b = Lcg::new();
    for _ in 0..100 {
        assert_eq!(a.next_u32(), b.next_u32());
    }
    assert_eq!(a.state, b.state);
}

#[test]
fn interval_names() {
    assert_eq!(interval_from_name("day"), Some(TimeInterval::CurrentDay));
    assert_eq!(interval_from_name("week"), Some(TimeInterval::CurrentWeek));
    assert_eq!(interval_from_name("month"), Some(TimeInterval::CurrentMonth));
    assert_eq!(interval_from_name("all"), Some(TimeInterval::All));
    assert_eq!(interval_from_name("Day"), None);
    assert_eq!(interval_from_name("year"), None);
}
