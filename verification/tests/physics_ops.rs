use pong_game::game::{Ball, Paddle, BALL_SPEED, FIELD_HEIGHT, FIELD_WIDTH};
use pong_game::physics::{
    check_ball_out_of_bounds, check_ball_paddle_collision, check_ball_wall_collision, clamp,
    reset_ball_position, resolve_ball_paddle_collision, resolve_ball_wall_collision,
    update_ball_position, update_paddle_position, Player,
};

#[test]
fn test_clamp() {
    assert_eq!(clamp(5, 0, 10), 5);
    assert_eq!(clamp(-1, 0, 10), 0);
    assert_eq!(clamp(15, 0, 10), 10);
}

#[test]
fn test_ball_wall_collision() {
    let ball = Ball::new(100, 5, 100, 100); // Ball near top
    assert!(check_ball_wall_collision(&ball, 400));

    let ball = Ball::new(100, 200, 100, 100); // Ball in middle
    assert!(!check_ball_wall_collision(&ball, 400));
}

#[test]
fn test_ball_paddle_collision() {
    let ball = Ball::new(25, 100, 100, 100);
    let paddle = Paddle::new(20, 80);
    assert!(check_ball_paddle_collision(&ball, &paddle));

    let ball = Ball::new(100, 100, 100, 100);
    let paddle = Paddle::new(20, 80);
    assert!(!check_ball_paddle_collision(&ball, &paddle));
}

#[test]
fn test_ball_integration_one_second() {
    // One whole second moves the ball by exactly its velocity.
    let mut ball = Ball::new(400, 200, 250, 75);
    update_ball_position(&mut ball, 1000);
    assert_eq!(ball.x(), 650);
    assert_eq!(ball.y(), 275);
    assert_eq!(ball.dx(), 250);
    assert_eq!(ball.dy(), 75);
}

#[test]
fn test_ball_integration_one_frame() {
    // A 16 ms frame moves by velocity * 16 / 1000, truncated toward zero.
    let mut ball = Ball::new(400, 200, 250, -75);
    update_ball_position(&mut ball, 16);
    assert_eq!(ball.x(), 404); // 250 * 16 / 1000 = 4
    assert_eq!(ball.y(), 199); // -(75 * 16 / 1000) = -1
}

#[test]
fn test_paddle_clamped_low() {
    let mut paddle = Paddle::new(20, 160);
    update_paddle_position(&mut paddle, -100_000, 3_600_000);
    assert_eq!(paddle.y(), 0);
}

#[test]
fn test_paddle_clamped_high() {
    let mut paddle = Paddle::new(20, 160);
    update_paddle_position(&mut paddle, 100_000, 3_600_000);
    assert_eq!(paddle.y(), FIELD_HEIGHT - paddle.height());
}

#[test]
fn test_paddle_speed_bounded() {
    // 100 ms allows at most 300 * 100 / 1000 = 30 pixels of travel.
    let mut paddle = Paddle::new(20, 160);
    update_paddle_position(&mut paddle, 300, 100);
    assert_eq!(paddle.y(), 190);
}

#[test]
fn test_paddle_reaches_near_target() {
    let mut paddle = Paddle::new(20, 160);
    update_paddle_position(&mut paddle, 150, 100);
    assert_eq!(paddle.y(), 150);
}

#[test]
fn test_wall_bounce_flips_and_clamps() {
    // Just above the top boundary: collision reported, dy flipped, y
    // clamped back to exactly the radius.
    let mut ball = Ball::new(100, 7, 250, -75);
    assert!(check_ball_wall_collision(&ball, FIELD_HEIGHT));
    resolve_ball_wall_collision(&mut ball);
    assert_eq!(ball.dy(), 75);
    assert_eq!(ball.y(), ball.radius());
}

#[test]
fn test_wall_bounce_bottom() {
    let mut ball = Ball::new(100, 396, 250, 75);
    assert!(check_ball_wall_collision(&ball, FIELD_HEIGHT));
    resolve_ball_wall_collision(&mut ball);
    assert_eq!(ball.dy(), -75);
    assert_eq!(ball.y(), FIELD_HEIGHT - ball.radius());
}

#[test]
fn test_paddle_bounce_center_hit() {
    // A dead-center hit leaves the field horizontally.
    let paddle = Paddle::new(20, 160); // center y = 200
    let mut ball = Ball::new(25, 200, -250, 40);
    resolve_ball_paddle_collision(&mut ball, &paddle);
    assert_eq!(ball.dx(), BALL_SPEED); // left paddle reflects rightward
    assert_eq!(ball.dy(), 0);
    assert_eq!(ball.x(), 20 + 10 + 8); // pushed just outside the paddle
}

#[test]
fn test_paddle_bounce_edge_hit_max_angle() {
    // An extreme hit offset gives the maximal vertical speed:
    // BALL_SPEED * MAX_BOUNCE_ANGLE * PADDLE_BOUNCE_ANGLE_FACTOR = 125.
    let paddle = Paddle::new(20, 160);
    let mut ball = Ball::new(25, 240, -250, 0);
    resolve_ball_paddle_collision(&mut ball, &paddle);
    assert_eq!(ball.dy(), 125);

    let mut ball = Ball::new(25, 120, -250, 0);
    resolve_ball_paddle_collision(&mut ball, &paddle);
    assert_eq!(ball.dy(), -125);
}

#[test]
fn test_paddle_bounce_right_paddle() {
    let paddle = Paddle::new(770, 160);
    let mut ball = Ball::new(775, 200, 250, 40);
    resolve_ball_paddle_collision(&mut ball, &paddle);
    assert_eq!(ball.dx(), -BALL_SPEED);
    assert_eq!(ball.x(), 770 - 8);
}

#[test]
fn test_out_of_bounds_sides() {
    let ball = Ball::new(-1, 200, -250, 0);
    assert_eq!(check_ball_out_of_bounds(&ball, FIELD_WIDTH), Some(Player::Player2));

    let ball = Ball::new(801, 200, 250, 0);
    assert_eq!(check_ball_out_of_bounds(&ball, FIELD_WIDTH), Some(Player::Player1));

    let ball = Ball::new(400, 200, 250, 0);
    assert_eq!(check_ball_out_of_bounds(&ball, FIELD_WIDTH), None);
}

#[test]
fn test_reset_ball() {
    let mut ball = Ball::new(900, 300, 123, 45);
    reset_ball_position(&mut ball, FIELD_WIDTH, FIELD_HEIGHT, true, 300);
    assert_eq!(ball.x(), 400);
    assert_eq!(ball.y(), 200);
    assert_eq!(ball.dx(), 250);
    assert_eq!(ball.dy(), 75); // 300 mrad at speed 250

    reset_ball_position(&mut ball, FIELD_WIDTH, FIELD_HEIGHT, false, -300);
    assert_eq!(ball.dx(), -250);
    assert_eq!(ball.dy(), -75);
}
