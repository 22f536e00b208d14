//! Stateless physics operations: movement integration, collision
//! detection and resolution, scoring detection, ball reset.
//!
//! Every operation takes entity data by reference and either mutates it in
//! place or returns a computed value; nothing here keeps state between
//! calls.

use vstd::prelude::*;

use crate::game::{Ball, Paddle, BALL_RADIUS, BALL_SPEED, FIELD_HEIGHT, FIELD_WIDTH, PADDLE_SPEED};

verus! {

/// Scale for dimensionless fixed-point factors: a value of `MILLI`
/// represents 1.0.
pub const MILLI: i64 = 1000;

/// Elastic wall bounce, in thousandths: 1000 means no dampening.
pub const BALL_BOUNCE_FACTOR_MILLI: i64 = 1000;

/// How much the hit position on a paddle affects the bounce angle,
/// in thousandths.
pub const PADDLE_BOUNCE_ANGLE_FACTOR_MILLI: i64 = 500;

/// Maximum bounce angle in milliradians.
pub const MAX_BOUNCE_ANGLE_MILLI: i64 = 1000;

/// Largest serve angle magnitude after a reset, in milliradians.
pub const SERVE_ANGLE_LIMIT_MILLI: i64 = 300;

/// Largest coordinate magnitude a stored position may have.
pub const POS_LIMIT: i64 = 1_000_000_000_000;

/// Largest coordinate magnitude the physics operations accept; one
/// integration step from a stored position stays under this.
pub const POS_SLACK: i64 = 1_100_000_000_000;

/// Largest velocity magnitude, in pixels per second.
pub const VEL_LIMIT: i64 = 1_000_000;

/// Largest elapsed time accepted for one step, in milliseconds.
pub const MAX_DT_MS: u64 = 3_600_000;

/// Which player scored.
#[derive(Debug, Clone, Copy, PartialEq, Eq, Structural)]
pub enum Player {
    Player1,
    Player2,
}

/// `v` restricted to the interval `[lo, hi]`.
pub open spec fn clamp_spec(v: int, lo: int, hi: int) -> int {
    if v < lo {
        lo
    } else if v > hi {
        hi
    } else {
        v
    }
}

pub fn clamp(value: i64, min: i64, max: i64) -> (r: i64)
    ensures
        r == clamp_spec(value as int, min as int, max as int),
{
    if value < min {
        min
    } else if value > max {
        max
    } else {
        value
    }
}

/// `v * m / d` with the quotient truncated toward zero, as Rust's integer
/// division does on a possibly negative `v` (for `m`, `d` nonnegative).
pub open spec fn muldiv_spec(v: int, m: int, d: int) -> int {
    if v >= 0 {
        v * m / d
    } else {
        -((-v) * m / d)
    }
}

/// Fixed-point product `v * m / d`, truncated toward zero.
fn muldiv(v: i64, m: i64, d: i64) -> (r: i64)
    requires
        0 <= m,
        0 < d,
        -0x7fff_ffff_ffff_ffff <= v,
        (if v >= 0 { v as int } else { -(v as int) }) * m <= i64::MAX,
    ensures
        r == muldiv_spec(v as int, m as int, d as int),
{
    if v >= 0 {
        proof {
            vstd::arithmetic::mul::lemma_mul_nonnegative(v as int, m as int);
            vstd::arithmetic::div_mod::lemma_div_pos_is_pos(v as int * m as int, d as int);
            vstd::arithmetic::div_mod::lemma_div_is_ordered(
                v as int * m as int,
                i64::MAX as int,
                d as int,
            );
        }
        (v * m) / d
    } else {
        proof {
            vstd::arithmetic::mul::lemma_mul_nonnegative(-(v as int), m as int);
            vstd::arithmetic::div_mod::lemma_div_pos_is_pos(-(v as int) * m as int, d as int);
            vstd::arithmetic::div_mod::lemma_div_is_ordered(
                -(v as int) * m as int,
                i64::MAX as int,
                d as int,
            );
        }
        -(((-v) * m) / d)
    }
}

/// The fixed-point product grows at most with its operands' bounds.
pub proof fn lemma_muldiv_bound(v: int, m: int, d: int, vb: int, mb: int)
    requires
        0 <= m <= mb,
        0 < d,
        -vb <= v <= vb,
    ensures
        -(vb * mb / d) <= muldiv_spec(v, m, d) <= vb * mb / d,
{
    vstd::arithmetic::mul::lemma_mul_nonnegative(vb, mb);
    vstd::arithmetic::div_mod::lemma_div_pos_is_pos(vb * mb, d);
    if v >= 0 {
        vstd::arithmetic::mul::lemma_mul_upper_bound(v, vb, m, mb);
        vstd::arithmetic::mul::lemma_mul_nonnegative(v, m);
        vstd::arithmetic::div_mod::lemma_div_pos_is_pos(v * m, d);
        vstd::arithmetic::div_mod::lemma_div_is_ordered(v * m, vb * mb, d);
    } else {
        vstd::arithmetic::mul::lemma_mul_upper_bound(-v, vb, m, mb);
        vstd::arithmetic::mul::lemma_mul_nonnegative(-v, m);
        vstd::arithmetic::div_mod::lemma_div_pos_is_pos((-v) * m, d);
        vstd::arithmetic::div_mod::lemma_div_is_ordered((-v) * m, vb * mb, d);
    }
}

/// Scaling by `d / d` changes nothing.
pub proof fn lemma_muldiv_same(v: int, d: int)
    requires
        0 < d,
    ensures
        muldiv_spec(v, d, d) == v,
{
    if v >= 0 {
        vstd::arithmetic::mul::lemma_mul_is_commutative(v, d);
        vstd::arithmetic::div_mod::lemma_div_multiples_vanish(v, d);
    } else {
        vstd::arithmetic::mul::lemma_mul_is_commutative(-v, d);
        vstd::arithmetic::div_mod::lemma_div_multiples_vanish(-v, d);
    }
}

/// The ball after one explicit-Euler integration step over `dt`
/// milliseconds.
pub open spec fn ball_moved(b: Ball, dt: int) -> Ball {
    Ball {
        x: (b.x + muldiv_spec(b.dx as int, dt, MILLI as int)) as i64,
        y: (b.y + muldiv_spec(b.dy as int, dt, MILLI as int)) as i64,
        ..b
    }
}

/// The ball's vertical extent touches or crosses the top or bottom
/// boundary.
pub open spec fn wall_hit(b: Ball, field_height: int) -> bool {
    b.y <= b.radius || b.y >= field_height - b.radius
}

/// The ball after an elastic wall bounce: vertical velocity inverted,
/// position clamped back inside the field.
pub open spec fn ball_after_wall(b: Ball) -> Ball {
    Ball {
        y: clamp_spec(b.y as int, b.radius as int, FIELD_HEIGHT - b.radius) as i64,
        dy: (-b.dy) as i64,
        ..b
    }
}

/// Axis-aligned overlap between the ball's bounding square and the
/// paddle's rectangle.
pub open spec fn paddle_overlap(b: Ball, p: Paddle) -> bool {
    &&& b.x + b.radius >= p.x
    &&& b.x - b.radius <= p.x + p.width
    &&& b.y + b.radius >= p.y
    &&& b.y - b.radius <= p.y + p.height
}

/// The normalized hit offset of the ball against the paddle, in
/// thousandths, clamped to `[-1000, 1000]`.
pub open spec fn hit_offset_milli(b: Ball, p: Paddle) -> int {
    let center_y = p.y + p.height / 2;
    clamp_spec(muldiv_spec(b.y - center_y, MILLI as int, p.height / 2), -MILLI as int, MILLI as int)
}

/// The bounce angle after a paddle hit, in milliradians: the hit offset
/// scaled by the maximum bounce angle and the paddle angle factor.
pub open spec fn bounce_angle_milli(b: Ball, p: Paddle) -> int {
    muldiv_spec(
        muldiv_spec(hit_offset_milli(b, p), MAX_BOUNCE_ANGLE_MILLI as int, MILLI as int),
        PADDLE_BOUNCE_ANGLE_FACTOR_MILLI as int,
        MILLI as int,
    )
}

/// The outgoing vertical velocity after a paddle hit: the ball speed
/// scaled by the bounce angle.
pub open spec fn bounce_dy(b: Ball, p: Paddle) -> int {
    muldiv_spec(bounce_angle_milli(b, p), BALL_SPEED as int, MILLI as int)
}

/// The ball after a paddle bounce: fixed-speed horizontal reflection
/// away from the paddle's side of the field, vertical velocity from the
/// hit offset, and the ball pushed just outside the paddle edge.
pub open spec fn ball_after_paddle(b: Ball, p: Paddle) -> Ball {
    let is_left_paddle = p.x < FIELD_WIDTH / 2;
    Ball {
        x: (if is_left_paddle {
            p.x + p.width + b.radius
        } else {
            p.x - b.radius
        }) as i64,
        dx: (if is_left_paddle {
            BALL_SPEED as int
        } else {
            -(BALL_SPEED as int)
        }) as i64,
        dy: bounce_dy(b, p) as i64,
        ..b
    }
}

/// Which player scores for a ball at this position, if any: the ball
/// leaving on the left scores for the right player and the other way
/// round.
pub open spec fn oob_player(b: Ball, field_width: int) -> Option<Player> {
    if b.x < 0 {
        Some(Player::Player2)
    } else if b.x > field_width {
        Some(Player::Player1)
    } else {
        None
    }
}

/// The ball recentered with a fresh serve velocity: full speed along the
/// chosen horizontal direction, vertical component from the serve angle
/// in milliradians.
pub open spec fn ball_reset(
    b: Ball,
    field_width: int,
    field_height: int,
    dir_right: bool,
    angle_milli: int,
) -> Ball {
    Ball {
        x: (field_width / 2) as i64,
        y: (field_height / 2) as i64,
        dx: (if dir_right {
            BALL_SPEED as int
        } else {
            -(BALL_SPEED as int)
        }) as i64,
        dy: muldiv_spec(angle_milli, BALL_SPEED as int, MILLI as int) as i64,
        ..b
    }
}

/// The paddle moved toward `target_y` at a rate bounded by
/// `PADDLE_SPEED`, then clamped inside the vertical field bounds.
pub open spec fn paddle_moved(p: Paddle, target_y: int, dt: int) -> Paddle {
    let diff = target_y - p.y;
    let max_movement = PADDLE_SPEED * dt / (MILLI as int);
    let movement = if -max_movement <= diff <= max_movement {
        diff
    } else if diff > 0 {
        max_movement
    } else {
        -max_movement
    };
    Paddle { y: clamp_spec(p.y + movement, 0, FIELD_HEIGHT - p.height) as i64, ..p }
}

/// Bounds under which the physics operations on the ball are exact and
/// free of overflow; one integration step past a stored state stays
/// inside them.
pub open spec fn ball_in_slack(b: Ball) -> bool {
    &&& b.radius == BALL_RADIUS
    &&& -POS_SLACK <= b.x <= POS_SLACK
    &&& -POS_SLACK <= b.y <= POS_SLACK
    &&& -VEL_LIMIT <= b.dx <= VEL_LIMIT
    &&& -VEL_LIMIT <= b.dy <= VEL_LIMIT
}

/// Integrates the ball position over `dt_ms` milliseconds:
/// `position += velocity * dt`, exactly, in fixed-point.
pub fn update_ball_position(ball: &mut Ball, dt_ms: u64)
    requires
        old(ball).wf(),
        dt_ms <= MAX_DT_MS,
    ensures
        *final(ball) == ball_moved(*old(ball), dt_ms as int),
        final(ball).x == old(ball).x + muldiv_spec(old(ball).dx as int, dt_ms as int, MILLI as int),
        final(ball).y == old(ball).y + muldiv_spec(old(ball).dy as int, dt_ms as int, MILLI as int),
        final(ball).dx == old(ball).dx,
        final(ball).dy == old(ball).dy,
        final(ball).radius == old(ball).radius,
        ball_in_slack(*final(ball)),
{
    proof {
        lemma_muldiv_bound(ball.dx as int, dt_ms as int, MILLI as int, VEL_LIMIT as int, MAX_DT_MS as int);
        lemma_muldiv_bound(ball.dy as int, dt_ms as int, MILLI as int, VEL_LIMIT as int, MAX_DT_MS as int);
    }
    ball.x = ball.x + muldiv(ball.dx, dt_ms as i64, MILLI);
    ball.y = ball.y + muldiv(ball.dy, dt_ms as i64, MILLI);
}

/// Moves the paddle's `y` toward `target_y` at a rate bounded by
/// `PADDLE_SPEED`, clamped inside `[0, FIELD_HEIGHT - height]` whatever
/// the target.
pub fn update_paddle_position(paddle: &mut Paddle, target_y: i64, dt_ms: u64)
    requires
        old(paddle).wf(),
        -POS_LIMIT <= target_y <= POS_LIMIT,
        dt_ms <= MAX_DT_MS,
    ensures
        *final(paddle) == paddle_moved(*old(paddle), target_y as int, dt_ms as int),
        0 <= final(paddle).y <= FIELD_HEIGHT - final(paddle).height,
        final(paddle).x == old(paddle).x,
        final(paddle).width == old(paddle).width,
        final(paddle).height == old(paddle).height,
        final(paddle).wf(),
{
    let current_y = paddle.y;
    let diff = target_y - current_y;
    let max_movement = (PADDLE_SPEED * (dt_ms as i64)) / MILLI;
    let movement = if -max_movement <= diff && diff <= max_movement {
        diff
    } else if diff > 0 {
        max_movement
    } else {
        -max_movement
    };
    let new_y = current_y + movement;
    paddle.y = clamp(new_y, 0, FIELD_HEIGHT - paddle.height);
}

/// True iff the ball's vertical extent (`y` plus or minus its radius)
/// touches or crosses the top or bottom boundary.
pub fn check_ball_wall_collision(ball: &Ball, field_height: i64) -> (r: bool)
    requires
        ball_in_slack(*ball),
        -POS_LIMIT <= field_height <= POS_LIMIT,
    ensures
        r == wall_hit(*ball, field_height as int),
{
    ball.y <= ball.radius || ball.y >= field_height - ball.radius
}

/// Inverts the ball's vertical velocity (elastic bounce) and clamps its
/// `y` back inside `[radius, FIELD_HEIGHT - radius]`.
pub fn resolve_ball_wall_collision(ball: &mut Ball)
    requires
        ball_in_slack(*old(ball)),
    ensures
        *final(ball) == ball_after_wall(*old(ball)),
        final(ball).dy == -old(ball).dy,
        final(ball).radius <= final(ball).y <= FIELD_HEIGHT - final(ball).radius,
{
    proof {
        lemma_muldiv_same(old(ball).dy as int, MILLI as int);
    }
    ball.dy = -muldiv(ball.dy, BALL_BOUNCE_FACTOR_MILLI, MILLI);
    if ball.y < ball.radius {
        ball.y = ball.radius;
    } else if ball.y > FIELD_HEIGHT - ball.radius {
        ball.y = FIELD_HEIGHT - ball.radius;
    }
}

/// Axis-aligned bounding-box overlap test between the ball's bounding
/// square and the paddle's rectangle.
pub fn check_ball_paddle_collision(ball: &Ball, paddle: &Paddle) -> (r: bool)
    requires
        ball_in_slack(*ball),
        paddle.wf(),
    ensures
        r == paddle_overlap(*ball, *paddle),
{
    let ball_left = ball.x - ball.radius;
    let ball_right = ball.x + ball.radius;
    let ball_top = ball.y - ball.radius;
    let ball_bottom = ball.y + ball.radius;

    let paddle_left = paddle.x;
    let paddle_right = paddle.x + paddle.width;
    let paddle_top = paddle.y;
    let paddle_bottom = paddle.y + paddle.height;

    ball_right >= paddle_left && ball_left <= paddle_right && ball_bottom >= paddle_top
        && ball_top <= paddle_bottom
}

/// Reflects the ball off a paddle: fixed-speed horizontal velocity away
/// from the paddle's side, vertical velocity from the normalized hit
/// offset, and the ball repositioned just outside the paddle edge. The
/// resulting vertical speed never exceeds
/// `BALL_SPEED * MAX_BOUNCE_ANGLE * PADDLE_BOUNCE_ANGLE_FACTOR`.
pub fn resolve_ball_paddle_collision(ball: &mut Ball, paddle: &Paddle)
    requires
        ball_in_slack(*old(ball)),
        paddle.wf(),
    ensures
        *final(ball) == ball_after_paddle(*old(ball), *paddle),
        -(BALL_SPEED as int * MAX_BOUNCE_ANGLE_MILLI as int * PADDLE_BOUNCE_ANGLE_FACTOR_MILLI as int
            / (MILLI as int * MILLI as int)) <= final(ball).dy
            <= BALL_SPEED as int * MAX_BOUNCE_ANGLE_MILLI as int
            * PADDLE_BOUNCE_ANGLE_FACTOR_MILLI as int / (MILLI as int * MILLI as int),
        final(ball).dx == BALL_SPEED || final(ball).dx == -BALL_SPEED,
{
    let is_left_paddle = paddle.x < FIELD_WIDTH / 2;

    let paddle_center_y = paddle.y + paddle.height / 2;
    let half_height = paddle.height / 2;
    let hit_position_milli = muldiv(ball.y - paddle_center_y, MILLI, half_height);
    let clamped_hit_milli = clamp(hit_position_milli, -MILLI, MILLI);

    let angle_milli = muldiv(
        muldiv(clamped_hit_milli, MAX_BOUNCE_ANGLE_MILLI, MILLI),
        PADDLE_BOUNCE_ANGLE_FACTOR_MILLI,
        MILLI,
    );
    proof {
        lemma_muldiv_bound(
            muldiv_spec(hit_offset_milli(*old(ball), *paddle), MAX_BOUNCE_ANGLE_MILLI as int, MILLI as int),
            PADDLE_BOUNCE_ANGLE_FACTOR_MILLI as int,
            MILLI as int,
            MILLI as int,
            PADDLE_BOUNCE_ANGLE_FACTOR_MILLI as int,
        );
        lemma_muldiv_bound(
            hit_offset_milli(*old(ball), *paddle),
            MAX_BOUNCE_ANGLE_MILLI as int,
            MILLI as int,
            MILLI as int,
            MAX_BOUNCE_ANGLE_MILLI as int,
        );
        lemma_muldiv_bound(
            bounce_angle_milli(*old(ball), *paddle),
            BALL_SPEED as int,
            MILLI as int,
            MAX_BOUNCE_ANGLE_MILLI as int * PADDLE_BOUNCE_ANGLE_FACTOR_MILLI as int
                / (MILLI as int),
            BALL_SPEED as int,
        );
    }

    if is_left_paddle {
        ball.dx = BALL_SPEED;
    } else {
        ball.dx = -BALL_SPEED;
    }

    ball.dy = muldiv(angle_milli, BALL_SPEED, MILLI);

    if is_left_paddle {
        ball.x = paddle.x + paddle.width + ball.radius;
    } else {
        ball.x = paddle.x - ball.radius;
    }
}

/// Returns which player scores for the current ball position: the right
/// player when the ball's `x` drops below 0, the left player when it
/// exceeds `field_width`, nobody otherwise.
pub fn check_ball_out_of_bounds(ball: &Ball, field_width: i64) -> (r: Option<Player>)
    requires
        ball_in_slack(*ball),
        -POS_LIMIT <= field_width <= POS_LIMIT,
    ensures
        r == oob_player(*ball, field_width as int),
{
    if ball.x < 0 {
        Some(Player::Player2)
    } else if ball.x > field_width {
        Some(Player::Player1)
    } else {
        None
    }
}

/// Recenters the ball and serves it again: full speed along the chosen
/// horizontal direction, vertical component `BALL_SPEED * angle` for a
/// serve angle given in milliradians.
pub fn reset_ball_position(
    ball: &mut Ball,
    field_width: i64,
    field_height: i64,
    dir_right: bool,
    angle_milli: i64,
)
    requires
        0 <= field_width <= POS_LIMIT,
        0 <= field_height <= POS_LIMIT,
        -SERVE_ANGLE_LIMIT_MILLI <= angle_milli <= SERVE_ANGLE_LIMIT_MILLI,
    ensures
        *final(ball) == ball_reset(
            *old(ball),
            field_width as int,
            field_height as int,
            dir_right,
            angle_milli as int,
        ),
        final(ball).dx == BALL_SPEED || final(ball).dx == -BALL_SPEED,
        -(BALL_SPEED as int * SERVE_ANGLE_LIMIT_MILLI as int / (MILLI as int)) <= final(ball).dy
            <= BALL_SPEED as int * SERVE_ANGLE_LIMIT_MILLI as int / (MILLI as int),
        final(ball).radius == old(ball).radius,
{
    proof {
        lemma_muldiv_bound(
            angle_milli as int,
            BALL_SPEED as int,
            MILLI as int,
            SERVE_ANGLE_LIMIT_MILLI as int,
            BALL_SPEED as int,
        );
    }
    ball.x = field_width / 2;
    ball.y = field_height / 2;

    if dir_right {
        ball.dx = BALL_SPEED;
    } else {
        ball.dx = -BALL_SPEED;
    }
    ball.dy = muldiv(angle_milli, BALL_SPEED, MILLI);
}

} // verus!
