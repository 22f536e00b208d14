use pong_game::codec::{format_signed, format_unsigned, parse_signed, parse_unsigned};
use pong_game::game::GameState;

#[test]
fn test_format_values() {
    assert_eq!(format_unsigned(0).as_str(), "0");
    assert_eq!(format_unsigned(7).as_str(), "7");
    assert_eq!(format_unsigned(4294967295).as_str(), "4294967295");
    assert_eq!(format_signed(-42).as_str(), "-42");
    assert_eq!(format_signed(1000000000000).as_str(), "1000000000000");
    assert_eq!(format_signed(0).as_str(), "0");
}

#[test]
fn test_parse_values() {
    assert_eq!(parse_unsigned("0", 100), Some(0));
    assert_eq!(parse_unsigned("007", 100), Some(7));
    assert_eq!(parse_unsigned("101", 100), None); // over the cap
    assert_eq!(parse_unsigned("", 100), None);
    assert_eq!(parse_unsigned("12a", 100), None);
    assert_eq!(parse_signed("-75", 1000), Some(-75));
    assert_eq!(parse_signed("75", 1000), Some(75));
    assert_eq!(parse_signed("-", 1000), None);
    assert_eq!(parse_signed("--5", 1000), None);
    assert_eq!(parse_signed("+5", 1000), None);
    assert_eq!(parse_signed("5.0", 1000), None);
    assert_eq!(parse_signed("-1001", 1000), None);
}

#[test]
fn test_serialize_exact_format() {
    let mut game = GameState::new(1);
    assert!(game.deserialize_state("160|160|400|200|250|75|0|0"));
    assert_eq!(game.serialize_state().as_str(), "160|160|400|200|250|75|0|0");

    assert!(game.deserialize_state("0|320|12|388|-250|-125|3|4"));
    assert_eq!(game.serialize_state().as_str(), "0|320|12|388|-250|-125|3|4");
}

#[test]
fn test_round_trip_after_play() {
    // Serializing one peer's state and applying it to another makes the
    // observable snapshots identical.
    let mut game = GameState::new(77);
    game.update(16);
    game.move_paddle1(40, 16);
    game.move_paddle2(390, 16);
    game.update(16);
    let wire = game.serialize_state();

    let mut peer = GameState::new(12345);
    assert!(peer.deserialize_state(wire.as_str()));
    assert_eq!(peer.paddle1().y(), game.paddle1().y());
    assert_eq!(peer.paddle2().y(), game.paddle2().y());
    assert_eq!(peer.ball().x(), game.ball().x());
    assert_eq!(peer.ball().y(), game.ball().y());
    assert_eq!(peer.ball().dx(), game.ball().dx());
    assert_eq!(peer.ball().dy(), game.ball().dy());
    assert_eq!(peer.score().player1(), game.score().player1());
    assert_eq!(peer.score().player2(), game.score().player2());
    assert_eq!(peer.serialize_state().as_str(), wire.as_str());
}

#[test]
fn test_deserialize_rejects_wrong_field_count() {
    let mut game = GameState::new(1);
    let before = game.serialize_state();
    assert!(!game.deserialize_state("1|2|3"));
    assert_eq!(game.serialize_state().as_str(), before.as_str());

    assert!(!game.deserialize_state("1|2|3|4|5|6|7|8|9"));
    assert!(!game.deserialize_state(""));
    assert_eq!(game.serialize_state().as_str(), before.as_str());
}

#[test]
fn test_deserialize_rejects_non_numeric() {
    let mut game = GameState::new(1);
    let before = game.serialize_state();
    assert!(!game.deserialize_state("a|b|c|d|e|f|g|h"));
    assert!(!game.deserialize_state("160|160|400|200|250|75|0|"));
    assert!(!game.deserialize_state("160|160|4 00|200|250|75|0|0"));
    assert_eq!(game.serialize_state().as_str(), before.as_str());
}

#[test]
fn test_deserialize_rejects_out_of_range() {
    let mut game = GameState::new(1);
    // A score must fit an unsigned 32-bit counter.
    assert!(!game.deserialize_state("160|160|400|200|250|75|4294967296|0"));
    assert!(game.deserialize_state("160|160|400|200|250|75|4294967295|0"));
    assert_eq!(game.score().player1(), 4294967295);

    // A negative score is not a score.
    assert!(!game.deserialize_state("160|160|400|200|250|75|-1|0"));

    // Coordinates beyond the stored-position limit are refused.
    assert!(!game.deserialize_state("10000000000000|0|0|0|0|0|0|0"));
    assert!(game.deserialize_state("1000000000000|0|0|0|0|0|0|0"));

    // Velocities beyond the velocity limit are refused.
    assert!(!game.deserialize_state("0|0|0|0|1000001|0|0|0"));
    assert!(game.deserialize_state("0|0|0|0|1000000|0|0|0"));
}
