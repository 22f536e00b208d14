use pong_game::game::{GameState, BALL_SPEED, FIELD_HEIGHT, FIELD_WIDTH, PADDLE_HEIGHT, PADDLE_WIDTH};

#[test]
fn test_new_game_layout() {
    let game = GameState::new(7);
    assert_eq!(game.paddle1().x(), 20);
    assert_eq!(game.paddle2().x(), FIELD_WIDTH - 20 - PADDLE_WIDTH);
    assert_eq!(game.paddle1().y(), (FIELD_HEIGHT - PADDLE_HEIGHT) / 2);
    assert_eq!(game.paddle2().y(), (FIELD_HEIGHT - PADDLE_HEIGHT) / 2);
    assert_eq!(game.paddle1().width(), PADDLE_WIDTH);
    assert_eq!(game.paddle1().height(), PADDLE_HEIGHT);
    assert_eq!(game.ball().x(), FIELD_WIDTH / 2);
    assert_eq!(game.ball().y(), FIELD_HEIGHT / 2);
    assert_eq!(game.ball().dx().abs(), BALL_SPEED);
    assert_eq!(game.ball().dy().abs(), BALL_SPEED * 300 / 1000);
    assert_eq!(game.score().player1(), 0);
    assert_eq!(game.score().player2(), 0);
}

#[test]
fn test_new_game_deterministic_per_seed() {
    let a = GameState::new(42);
    let b = GameState::new(42);
    assert_eq!(a.ball().dx(), b.ball().dx());
    assert_eq!(a.ball().dy(), b.ball().dy());
}

#[test]
fn test_update_no_collision_scenario() {
    // Ball at (400, 200) with velocity (250, 75): one full second later
    // it sits at (650, 275), nothing else having happened.
    let mut game = GameState::new(1);
    assert!(game.deserialize_state("160|160|400|200|250|75|0|0"));
    game.update(1000);
    assert_eq!(game.ball().x(), 650);
    assert_eq!(game.ball().y(), 275);
    assert_eq!(game.ball().dx(), 250);
    assert_eq!(game.ball().dy(), 75);
    assert_eq!(game.score().player1(), 0);
    assert_eq!(game.score().player2(), 0);
    assert_eq!(game.paddle1().y(), 160);
    assert_eq!(game.paddle2().y(), 160);
}

#[test]
fn test_update_scores_and_resets() {
    // A ball past the right edge scores for player 1 and is re-served
    // from the center at full speed.
    let mut game = GameState::new(5);
    assert!(game.deserialize_state("160|160|801|200|250|75|0|0"));
    game.update(1000);
    assert_eq!(game.score().player1(), 1);
    assert_eq!(game.score().player2(), 0);
    assert_eq!(game.ball().x(), FIELD_WIDTH / 2);
    assert_eq!(game.ball().y(), FIELD_HEIGHT / 2);
    assert_eq!(game.ball().dx().abs(), BALL_SPEED);
    assert!(game.ball().dy().abs() <= BALL_SPEED * 300 / 1000);
}

#[test]
fn test_update_scores_left_side() {
    let mut game = GameState::new(5);
    assert!(game.deserialize_state("160|160|-1|200|-250|0|0|0"));
    game.update(0);
    assert_eq!(game.score().player1(), 0);
    assert_eq!(game.score().player2(), 1);
    assert_eq!(game.ball().x(), FIELD_WIDTH / 2);
}

#[test]
fn test_update_wall_bounce() {
    // Ball heading up into the top wall within one second.
    let mut game = GameState::new(9);
    assert!(game.deserialize_state("0|0|400|50|0|-100|0|0"));
    game.update(1000);
    // Integrated y would be -50; collision flips dy and clamps y to the
    // radius.
    assert_eq!(game.ball().y(), game.ball().radius());
    assert_eq!(game.ball().dy(), 100);
}

#[test]
fn test_update_paddle_bounce_priority() {
    // A ball overlapping the left paddle reflects rightward at full
    // speed.
    let mut game = GameState::new(3);
    assert!(game.deserialize_state("160|160|40|200|-250|0|0|0"));
    game.update(16); // moves to x = 36, inside the left paddle's box
    assert_eq!(game.ball().dx(), BALL_SPEED);
    assert_eq!(game.ball().x(), 20 + PADDLE_WIDTH + game.ball().radius());
}

#[test]
fn test_move_paddles() {
    let mut game = GameState::new(11);
    game.move_paddle1(0, 1000); // 160 pixels of travel allowed: reaches 0
    assert_eq!(game.paddle1().y(), 0);
    assert_eq!(game.paddle2().y(), 160);

    game.move_paddle2(400, 100); // bounded to 30 pixels, then clamping later
    assert_eq!(game.paddle2().y(), 190);
    assert_eq!(game.paddle1().y(), 0);

    // An over-range target never pushes the paddle outside the field.
    game.move_paddle2(100_000, 3_600_000);
    assert_eq!(game.paddle2().y(), FIELD_HEIGHT - PADDLE_HEIGHT);
}

#[test]
fn test_score_accumulates() {
    let mut game = GameState::new(2);
    assert!(game.deserialize_state("160|160|801|200|250|0|3|4"));
    game.update(0);
    assert_eq!(game.score().player1(), 4);
    assert_eq!(game.score().player2(), 4);
}
