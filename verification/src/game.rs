//! The game entities: two paddles, one ball, the score, and the
//! aggregate game state.

use vstd::prelude::*;

use crate::codec::{
    dec_digits, format_signed, format_unsigned, int_str, int_val, lemma_dec_digits_val,
    lemma_int_str_val, lemma_split_no_sep_append, lemma_split_sep_append, lemma_split_single,
    parse_signed, parse_unsigned, split_chars, str_is_int, str_is_uint, uint_val,
};
use crate::physics::{
    ball_after_paddle, ball_after_wall, ball_moved, ball_reset, check_ball_out_of_bounds,
    check_ball_paddle_collision, check_ball_wall_collision, oob_player, paddle_moved,
    paddle_overlap, reset_ball_position, resolve_ball_paddle_collision,
    resolve_ball_wall_collision, update_ball_position, update_paddle_position, wall_hit, Player,
    MAX_DT_MS, MILLI, POS_LIMIT, SERVE_ANGLE_LIMIT_MILLI, VEL_LIMIT,
};

verus! {

/// Width of the play field, in pixels.
pub const FIELD_WIDTH: i64 = 800;

/// Height of the play field, in pixels.
pub const FIELD_HEIGHT: i64 = 400;

/// Paddle width, in pixels.
pub const PADDLE_WIDTH: i64 = 10;

/// Paddle height, in pixels.
pub const PADDLE_HEIGHT: i64 = 80;

/// Ball radius, in pixels.
pub const BALL_RADIUS: i64 = 8;

/// Paddle speed, in pixels per second.
pub const PADDLE_SPEED: i64 = 300;

/// Ball speed, in pixels per second.
pub const BALL_SPEED: i64 = 250;

/// Horizontal margin between each paddle and its edge of the field, in
/// pixels.
pub const PADDLE_MARGIN: i64 = 20;

/// A paddle: `x`, `width` and `height` are fixed per instance, only `y`
/// moves.
#[derive(Debug, Clone, Copy, PartialEq, Eq, Structural)]
pub struct Paddle {
    pub x: i64,
    pub y: i64,
    pub width: i64,
    pub height: i64,
}

impl Paddle {
    /// Bounds under which every physics operation on a paddle is exact
    /// and free of overflow.
    pub open spec fn wf(self) -> bool {
        &&& self.width == PADDLE_WIDTH
        &&& self.height == PADDLE_HEIGHT
        &&& -POS_LIMIT <= self.x <= POS_LIMIT
        &&& -POS_LIMIT <= self.y <= POS_LIMIT
    }

    pub fn new(x: i64, y: i64) -> (r: Paddle)
        ensures
            r == (Paddle { x, y, width: PADDLE_WIDTH, height: PADDLE_HEIGHT }),
    {
        Paddle { x, y, width: PADDLE_WIDTH, height: PADDLE_HEIGHT }
    }

    pub fn x(&self) -> (r: i64)
        ensures
            r == self.x,
    {
        self.x
    }

    pub fn y(&self) -> (r: i64)
        ensures
            r == self.y,
    {
        self.y
    }

    pub fn width(&self) -> (r: i64)
        ensures
            r == self.width,
    {
        self.width
    }

    pub fn height(&self) -> (r: i64)
        ensures
            r == self.height,
    {
        self.height
    }
}

/// The ball: position `(x, y)`, velocity `(dx, dy)`, fixed radius.
#[derive(Debug, Clone, Copy, PartialEq, Eq, Structural)]
pub struct Ball {
    pub x: i64,
    pub y: i64,
    pub dx: i64,
    pub dy: i64,
    pub radius: i64,
}

impl Ball {
    /// Bounds under which every physics operation on the ball is exact
    /// and free of overflow.
    pub open spec fn wf(self) -> bool {
        &&& self.radius == BALL_RADIUS
        &&& -POS_LIMIT <= self.x <= POS_LIMIT
        &&& -POS_LIMIT <= self.y <= POS_LIMIT
        &&& -VEL_LIMIT <= self.dx <= VEL_LIMIT
        &&& -VEL_LIMIT <= self.dy <= VEL_LIMIT
    }

    pub fn new(x: i64, y: i64, dx: i64, dy: i64) -> (r: Ball)
        ensures
            r == (Ball { x, y, dx, dy, radius: BALL_RADIUS }),
    {
        Ball { x, y, dx, dy, radius: BALL_RADIUS }
    }

    pub fn x(&self) -> (r: i64)
        ensures
            r == self.x,
    {
        self.x
    }

    pub fn y(&self) -> (r: i64)
        ensures
            r == self.y,
    {
        self.y
    }

    pub fn dx(&self) -> (r: i64)
        ensures
            r == self.dx,
    {
        self.dx
    }

    pub fn dy(&self) -> (r: i64)
        ensures
            r == self.dy,
    {
        self.dy
    }

    pub fn radius(&self) -> (r: i64)
        ensures
            r == self.radius,
    {
        self.radius
    }
}

/// Two non-negative point counters, one per player.
#[derive(Debug, Clone, Copy, PartialEq, Eq, Structural)]
pub struct Score {
    pub player1: u32,
    pub player2: u32,
}

impl Score {
    pub fn new() -> (r: Score)
        ensures
            r == (Score { player1: 0, player2: 0 }),
    {
        Score { player1: 0, player2: 0 }
    }

    pub fn player1(&self) -> (r: u32)
        ensures
            r == self.player1,
    {
        self.player1
    }

    pub fn player2(&self) -> (r: u32)
        ensures
            r == self.player2,
    {
        self.player2
    }
}

/// One xorshift step of the serve randomizer.
pub open spec fn rng_next_spec(x: u64) -> u64 {
    let a = x ^ (x << 13);
    let b = a ^ (a >> 7);
    b ^ (b << 17)
}

fn rng_next(x: u64) -> (r: u64)
    ensures
        r == rng_next_spec(x),
{
    let a = x ^ (x << 13);
    let b = a ^ (a >> 7);
    b ^ (b << 17)
}

/// The horizontal serve direction drawn from a randomizer state.
pub open spec fn rng_dir_spec(x: u64) -> bool {
    (x >> 32) & 1 == 0
}

fn rng_dir(x: u64) -> (r: bool)
    ensures
        r == rng_dir_spec(x),
{
    (x >> 32) & 1 == 0
}

/// The serve angle drawn from a randomizer state, uniform over
/// `[-SERVE_ANGLE_LIMIT_MILLI, SERVE_ANGLE_LIMIT_MILLI]` milliradians.
pub open spec fn rng_angle_spec(x: u64) -> int {
    (x % 601) - SERVE_ANGLE_LIMIT_MILLI
}

fn rng_angle(x: u64) -> (r: i64)
    ensures
        r == rng_angle_spec(x),
        -SERVE_ANGLE_LIMIT_MILLI <= r <= SERVE_ANGLE_LIMIT_MILLI,
{
    ((x % 601) as i64) - SERVE_ANGLE_LIMIT_MILLI
}

/// The aggregate authoritative state: two paddles, one ball, the score,
/// and the serve randomizer state.
#[derive(Debug, Clone, Copy, PartialEq, Eq, Structural)]
pub struct GameState {
    pub paddle1: Paddle,
    pub paddle2: Paddle,
    pub ball: Ball,
    pub score: Score,
    pub rng: u64,
}

/// The state a new game starts from: both paddles at their fixed
/// horizontal offsets and vertically centered, the ball at field center
/// with a random diagonal serve, a zeroed score.
pub open spec fn initial_state(seed: u64) -> GameState {
    let r1 = rng_next_spec(seed);
    let r2 = rng_next_spec(r1);
    let dir_right = rng_dir_spec(r2);
    let angle_up = rng_dir_spec(r1);
    let serve_dy = BALL_SPEED as int * SERVE_ANGLE_LIMIT_MILLI as int / (MILLI as int);
    GameState {
        paddle1: Paddle {
            x: PADDLE_MARGIN,
            y: (FIELD_HEIGHT / 2 - PADDLE_HEIGHT / 2) as i64,
            width: PADDLE_WIDTH,
            height: PADDLE_HEIGHT,
        },
        paddle2: Paddle {
            x: (FIELD_WIDTH - PADDLE_MARGIN - PADDLE_WIDTH) as i64,
            y: (FIELD_HEIGHT / 2 - PADDLE_HEIGHT / 2) as i64,
            width: PADDLE_WIDTH,
            height: PADDLE_HEIGHT,
        },
        ball: Ball {
            x: (FIELD_WIDTH / 2) as i64,
            y: (FIELD_HEIGHT / 2) as i64,
            dx: (if dir_right {
                BALL_SPEED as int
            } else {
                -(BALL_SPEED as int)
            }) as i64,
            dy: (if dir_right == angle_up {
                serve_dy
            } else {
                -serve_dy
            }) as i64,
            radius: BALL_RADIUS,
        },
        score: Score { player1: 0, player2: 0 },
        rng: r2,
    }
}

/// The ball after the movement and collision phases of one frame:
/// integration over `dt`, then a wall bounce if one is due, then at most
/// one paddle bounce, the left paddle taking priority.
pub open spec fn ball_after_collisions(g: GameState, dt: int) -> Ball {
    let moved = ball_moved(g.ball, dt);
    let walled = if wall_hit(moved, FIELD_HEIGHT as int) {
        ball_after_wall(moved)
    } else {
        moved
    };
    if paddle_overlap(walled, g.paddle1) {
        ball_after_paddle(walled, g.paddle1)
    } else if paddle_overlap(walled, g.paddle2) {
        ball_after_paddle(walled, g.paddle2)
    } else {
        walled
    }
}

/// The state after one frame of `dt` milliseconds: integrate the ball,
/// resolve a wall bounce, resolve at most one paddle bounce (the left
/// paddle first), then score and re-serve if the ball left the field.
pub open spec fn update_spec(g: GameState, dt: int) -> GameState {
    let bounced = ball_after_collisions(g, dt);
    match oob_player(bounced, FIELD_WIDTH as int) {
        Option::Some(scorer) => {
            let r = rng_next_spec(g.rng);
            let served = ball_reset(
                bounced,
                FIELD_WIDTH as int,
                FIELD_HEIGHT as int,
                rng_dir_spec(r),
                rng_angle_spec(r),
            );
            let score = match scorer {
                Player::Player1 => Score {
                    player1: (g.score.player1 + 1) as u32,
                    player2: g.score.player2,
                },
                Player::Player2 => Score {
                    player1: g.score.player1,
                    player2: (g.score.player2 + 1) as u32,
                },
            };
            GameState { ball: served, score, rng: r, ..g }
        },
        Option::None => GameState { ball: bounced, ..g },
    }
}

/// Scoring transition of one frame: when the collision phase leaves the
/// ball out of bounds, exactly the scoring player's counter grows, by
/// exactly one, and the ball is re-served from the field center at full
/// speed with a bounded serve slope; when it does not, the score stands
/// and the ball is exactly the collision-phase ball.
pub proof fn lemma_score_transition(g: GameState, dt: int)
    requires
        g.score.player1 < u32::MAX,
        g.score.player2 < u32::MAX,
    ensures
        ({
            let bounced = ball_after_collisions(g, dt);
            let stepped = update_spec(g, dt);
            match oob_player(bounced, FIELD_WIDTH as int) {
                Option::Some(scorer) => {
                    &&& (scorer == Player::Player1 ==> stepped.score.player1 == g.score.player1
                        + 1 && stepped.score.player2 == g.score.player2)
                    &&& (scorer == Player::Player2 ==> stepped.score.player2 == g.score.player2
                        + 1 && stepped.score.player1 == g.score.player1)
                    &&& stepped.ball.x == FIELD_WIDTH / 2
                    &&& stepped.ball.y == FIELD_HEIGHT / 2
                    &&& (stepped.ball.dx == BALL_SPEED || stepped.ball.dx == -BALL_SPEED)
                    &&& -(BALL_SPEED as int * SERVE_ANGLE_LIMIT_MILLI as int / (MILLI as int))
                        <= stepped.ball.dy <= BALL_SPEED as int * SERVE_ANGLE_LIMIT_MILLI as int
                        / (MILLI as int)
                },
                Option::None => stepped.score == g.score && stepped.ball == bounced,
            }
        }),
{
    let bounced = ball_after_collisions(g, dt);
    if oob_player(bounced, FIELD_WIDTH as int) is Some {
        let r = rng_next_spec(g.rng);
        crate::physics::lemma_muldiv_bound(
            rng_angle_spec(r),
            BALL_SPEED as int,
            MILLI as int,
            SERVE_ANGLE_LIMIT_MILLI as int,
            BALL_SPEED as int,
        );
    }
}

impl GameState {
    /// Bounds every reachable state satisfies: paddles at their fixed
    /// horizontal offsets with the fixed sizes, ball within the stored
    /// coordinate and velocity limits.
    pub open spec fn wf(self) -> bool {
        &&& self.paddle1.wf()
        &&& self.paddle1.x == PADDLE_MARGIN
        &&& self.paddle2.wf()
        &&& self.paddle2.x == FIELD_WIDTH - PADDLE_MARGIN - PADDLE_WIDTH
        &&& self.ball.wf()
    }

    /// Starts a new game; `seed` drives the serve randomizer, so two
    /// peers seeded alike serve alike.
    pub fn new(seed: u64) -> (r: GameState)
        ensures
            r == initial_state(seed),
            r.wf(),
    {
        let paddle1 = Paddle::new(PADDLE_MARGIN, FIELD_HEIGHT / 2 - PADDLE_HEIGHT / 2);
        let paddle2 = Paddle::new(
            FIELD_WIDTH - PADDLE_MARGIN - PADDLE_WIDTH,
            FIELD_HEIGHT / 2 - PADDLE_HEIGHT / 2,
        );

        let r1 = rng_next(seed);
        let r2 = rng_next(r1);
        let angle_up = rng_dir(r1);
        let dir_right = rng_dir(r2);
        let ball_dx = if dir_right {
            BALL_SPEED
        } else {
            -BALL_SPEED
        };
        let serve_dy = (BALL_SPEED * SERVE_ANGLE_LIMIT_MILLI) / MILLI;
        let ball_dy = if dir_right == angle_up {
            serve_dy
        } else {
            -serve_dy
        };

        let ball = Ball::new(FIELD_WIDTH / 2, FIELD_HEIGHT / 2, ball_dx, ball_dy);

        let score = Score::new();

        GameState { paddle1, paddle2, ball, score, rng: r2 }
    }

    /// Advances the simulation by `dt_ms` milliseconds: ball integration,
    /// wall bounce, paddle bounce (left paddle first), scoring and
    /// re-serve, in that fixed order. The score of at most one player
    /// grows, by exactly one.
    pub fn update(&mut self, dt_ms: u64)
        requires
            old(self).wf(),
            dt_ms <= MAX_DT_MS,
            old(self).score.player1 < u32::MAX,
            old(self).score.player2 < u32::MAX,
        ensures
            *final(self) == update_spec(*old(self), dt_ms as int),
            final(self).wf(),
            final(self).paddle1 == old(self).paddle1,
            final(self).paddle2 == old(self).paddle2,
            final(self).score.player1 >= old(self).score.player1,
            final(self).score.player2 >= old(self).score.player2,
            final(self).score.player1 + final(self).score.player2 <= old(self).score.player1
                + old(self).score.player2 + 1,
    {
        update_ball_position(&mut self.ball, dt_ms);

        if check_ball_wall_collision(&self.ball, FIELD_HEIGHT) {
            resolve_ball_wall_collision(&mut self.ball);
        }

        if check_ball_paddle_collision(&self.ball, &self.paddle1) {
            resolve_ball_paddle_collision(&mut self.ball, &self.paddle1);
        } else if check_ball_paddle_collision(&self.ball, &self.paddle2) {
            resolve_ball_paddle_collision(&mut self.ball, &self.paddle2);
        }

        if let Some(scoring_player) = check_ball_out_of_bounds(&self.ball, FIELD_WIDTH) {
            match scoring_player {
                Player::Player1 => {
                    self.score.player1 = self.score.player1 + 1;
                },
                Player::Player2 => {
                    self.score.player2 = self.score.player2 + 1;
                },
            }
            let r = rng_next(self.rng);
            self.rng = r;
            let dir_right = rng_dir(r);
            let angle_milli = rng_angle(r);
            reset_ball_position(&mut self.ball, FIELD_WIDTH, FIELD_HEIGHT, dir_right, angle_milli);
        }
    }

    /// Moves the left paddle toward `target_y`; only that paddle's `y`
    /// changes.
    pub fn move_paddle1(&mut self, target_y: i64, dt_ms: u64)
        requires
            old(self).wf(),
            -POS_LIMIT <= target_y <= POS_LIMIT,
            dt_ms <= MAX_DT_MS,
        ensures
            final(self).paddle1 == paddle_moved(old(self).paddle1, target_y as int, dt_ms as int),
            final(self).paddle2 == old(self).paddle2,
            final(self).ball == old(self).ball,
            final(self).score == old(self).score,
            final(self).rng == old(self).rng,
            final(self).wf(),
    {
        update_paddle_position(&mut self.paddle1, target_y, dt_ms);
    }

    /// Moves the right paddle toward `target_y`; only that paddle's `y`
    /// changes.
    pub fn move_paddle2(&mut self, target_y: i64, dt_ms: u64)
        requires
            old(self).wf(),
            -POS_LIMIT <= target_y <= POS_LIMIT,
            dt_ms <= MAX_DT_MS,
        ensures
            final(self).paddle2 == paddle_moved(old(self).paddle2, target_y as int, dt_ms as int),
            final(self).paddle1 == old(self).paddle1,
            final(self).ball == old(self).ball,
            final(self).score == old(self).score,
            final(self).rng == old(self).rng,
            final(self).wf(),
    {
        update_paddle_position(&mut self.paddle2, target_y, dt_ms);
    }

    pub fn paddle1(&self) -> (r: Paddle)
        ensures
            r == self.paddle1,
    {
        self.paddle1
    }

    pub fn paddle2(&self) -> (r: Paddle)
        ensures
            r == self.paddle2,
    {
        self.paddle2
    }

    pub fn ball(&self) -> (r: Ball)
        ensures
            r == self.ball,
    {
        self.ball
    }

    pub fn score(&self) -> (r: Score)
        ensures
            r == self.score,
    {
        self.score
    }

    /// Renders the full authoritative state as the pipe-delimited wire
    /// string.
    pub fn serialize_state(&self) -> (r: String)
        requires
            self.wf(),
        ensures
            r@ == wire_of(*self),
    {
        proof {
            reveal_strlit("|");
        }
        let mut out = format_signed(self.paddle1.y);
        out.append("|");
        let f1 = format_signed(self.paddle2.y);
        out.append(f1.as_str());
        out.append("|");
        let f2 = format_signed(self.ball.x);
        out.append(f2.as_str());
        out.append("|");
        let f3 = format_signed(self.ball.y);
        out.append(f3.as_str());
        out.append("|");
        let f4 = format_signed(self.ball.dx);
        out.append(f4.as_str());
        out.append("|");
        let f5 = format_signed(self.ball.dy);
        out.append(f5.as_str());
        out.append("|");
        let f6 = format_unsigned(self.score.player1 as u64);
        out.append(f6.as_str());
        out.append("|");
        let f7 = format_unsigned(self.score.player2 as u64);
        out.append(f7.as_str());
        proof {
            assert(out@ =~= wire_of(*self));
        }
        out
    }

    /// Overwrites the mutable state fields from a wire string. Returns
    /// `true` and applies all eight fields exactly when the string is
    /// well formed (eight pipe-delimited fields, each a decimal of the
    /// right kind and range); otherwise returns `false` and leaves the
    /// state untouched.
    pub fn deserialize_state(&mut self, state_str: &str) -> (r: bool)
        ensures
            r == wire_ok(state_str@),
            r ==> *final(self) == apply_wire(*old(self), split_chars(state_str@)),
            !r ==> *final(self) == *old(self),
            old(self).wf() ==> final(self).wf(),
    {
        let n: usize = state_str.unicode_len();
        let mut parts: Vec<&str> = Vec::new();
        let mut seg_start: usize = 0;
        let mut i: usize = 0;
        while i < n
            invariant
                0 <= seg_start <= i <= n,
                n == state_str@.len(),
                parts@.len() == split_chars(state_str@.subrange(0, i as int)).len() - 1,
                forall|j: int|
                    0 <= j < parts@.len() ==> parts@[j]@ == split_chars(
                        state_str@.subrange(0, i as int),
                    )[j],
                split_chars(state_str@.subrange(0, i as int)).last() == state_str@.subrange(
                    seg_start as int,
                    i as int,
                ),
            decreases n - i,
        {
            proof {
                crate::codec::lemma_split_nonempty(state_str@.subrange(0, i as int));
                assert(state_str@.subrange(0, i as int + 1).drop_last() =~= state_str@.subrange(
                    0,
                    i as int,
                ));
                assert(state_str@.subrange(0, i as int + 1).last() == state_str@[i as int]);
            }
            let c = state_str.get_char(i);
            if c == '|' {
                let piece = state_str.substring_char(seg_start, i);
                parts.push(piece);
                seg_start = i + 1;
                proof {
                    assert(state_str@.subrange(i as int + 1, i as int + 1)
                        =~= Seq::<char>::empty());
                }
            } else {
                proof {
                    assert(state_str@.subrange(seg_start as int, i as int).push(
                        state_str@[i as int],
                    ) =~= state_str@.subrange(seg_start as int, i as int + 1));
                }
            }
            i = i + 1;
        }
        proof {
            assert(state_str@.subrange(0, n as int) =~= state_str@);
        }
        let last_piece = state_str.substring_char(seg_start, n);
        parts.push(last_piece);
        proof {
            crate::codec::lemma_split_nonempty(state_str@);
        }

        if parts.len() != 8 {
            return false;
        }

        let paddle1_y = match parse_signed(parts[0], POS_LIMIT) {
            Some(val) => val,
            None => {
                return false;
            },
        };
        let paddle2_y = match parse_signed(parts[1], POS_LIMIT) {
            Some(val) => val,
            None => {
                return false;
            },
        };
        let ball_x = match parse_signed(parts[2], POS_LIMIT) {
            Some(val) => val,
            None => {
                return false;
            },
        };
        let ball_y = match parse_signed(parts[3], POS_LIMIT) {
            Some(val) => val,
            None => {
                return false;
            },
        };
        let ball_dx = match parse_signed(parts[4], VEL_LIMIT) {
            Some(val) => val,
            None => {
                return false;
            },
        };
        let ball_dy = match parse_signed(parts[5], VEL_LIMIT) {
            Some(val) => val,
            None => {
                return false;
            },
        };
        let score1 = match parse_unsigned(parts[6], u32::MAX as u64) {
            Some(val) => val,
            None => {
                return false;
            },
        };
        let score2 = match parse_unsigned(parts[7], u32::MAX as u64) {
            Some(val) => val,
            None => {
                return false;
            },
        };

        self.paddle1.y = paddle1_y;
        self.paddle2.y = paddle2_y;
        self.ball.x = ball_x;
        self.ball.y = ball_y;
        self.ball.dx = ball_dx;
        self.ball.dy = ball_dy;
        self.score.player1 = score1 as u32;
        self.score.player2 = score2 as u32;

        true
    }
}

/// The wire string of a state: the eight mutable numeric fields in fixed
/// order, pipe-delimited. The paddles' x and sizes and the ball radius
/// are compile-time constants and are not transmitted.
pub open spec fn wire_of(g: GameState) -> Seq<char> {
    int_str(g.paddle1.y as int) + seq!['|'] + int_str(g.paddle2.y as int) + seq!['|'] + int_str(
        g.ball.x as int,
    ) + seq!['|'] + int_str(g.ball.y as int) + seq!['|'] + int_str(g.ball.dx as int) + seq!['|']
        + int_str(g.ball.dy as int) + seq!['|'] + dec_digits(g.score.player1 as nat) + seq!['|']
        + dec_digits(g.score.player2 as nat)
}

/// A signed wire field: an optionally minus-signed decimal whose
/// magnitude stays within `bound`.
pub open spec fn field_int_ok(p: Seq<char>, bound: int) -> bool {
    str_is_int(p) && -bound <= int_val(p) <= bound
}

/// An unsigned wire field: an all-digit decimal whose value stays
/// within `max`.
pub open spec fn field_uint_ok(p: Seq<char>, max: int) -> bool {
    str_is_uint(p) && uint_val(p) <= max
}

/// A well-formed wire string: exactly eight pipe-delimited fields, each
/// a decimal of the right kind and range.
pub open spec fn wire_ok(s: Seq<char>) -> bool {
    let parts = split_chars(s);
    &&& parts.len() == 8
    &&& field_int_ok(parts[0], POS_LIMIT as int)
    &&& field_int_ok(parts[1], POS_LIMIT as int)
    &&& field_int_ok(parts[2], POS_LIMIT as int)
    &&& field_int_ok(parts[3], POS_LIMIT as int)
    &&& field_int_ok(parts[4], VEL_LIMIT as int)
    &&& field_int_ok(parts[5], VEL_LIMIT as int)
    &&& field_uint_ok(parts[6], u32::MAX as int)
    &&& field_uint_ok(parts[7], u32::MAX as int)
}

/// The state after applying the eight parsed wire fields, everything
/// else unchanged.
pub open spec fn apply_wire(g: GameState, parts: Seq<Seq<char>>) -> GameState {
    GameState {
        paddle1: Paddle { y: int_val(parts[0]) as i64, ..g.paddle1 },
        paddle2: Paddle { y: int_val(parts[1]) as i64, ..g.paddle2 },
        ball: Ball {
            x: int_val(parts[2]) as i64,
            y: int_val(parts[3]) as i64,
            dx: int_val(parts[4]) as i64,
            dy: int_val(parts[5]) as i64,
            radius: g.ball.radius,
        },
        score: Score { player1: uint_val(parts[6]) as u32, player2: uint_val(parts[7]) as u32 },
        rng: g.rng,
    }
}

/// The wire round trip is the identity on every reachable state: the
/// serialized string of a state is well formed, and applying its fields
/// to any reachable state reproduces the serialized state exactly (the
/// serve randomizer is local to each peer and is not transmitted).
pub proof fn lemma_wire_round_trip(g: GameState, h: GameState)
    requires
        g.wf(),
        h.wf(),
    ensures
        wire_ok(wire_of(g)),
        apply_wire(h, split_chars(wire_of(g))) == (GameState { rng: h.rng, ..g }),
{
    let f0 = int_str(g.paddle1.y as int);
    let f1 = int_str(g.paddle2.y as int);
    let f2 = int_str(g.ball.x as int);
    let f3 = int_str(g.ball.y as int);
    let f4 = int_str(g.ball.dx as int);
    let f5 = int_str(g.ball.dy as int);
    let f6 = dec_digits(g.score.player1 as nat);
    let f7 = dec_digits(g.score.player2 as nat);
    lemma_int_str_val(g.paddle1.y as int);
    lemma_int_str_val(g.paddle2.y as int);
    lemma_int_str_val(g.ball.x as int);
    lemma_int_str_val(g.ball.y as int);
    lemma_int_str_val(g.ball.dx as int);
    lemma_int_str_val(g.ball.dy as int);
    lemma_dec_digits_val(g.score.player1 as nat);
    lemma_dec_digits_val(g.score.player2 as nat);
    assert(forall|i: int| 0 <= i < f6.len() ==> #[trigger] f6[i] != '|');
    assert(forall|i: int| 0 <= i < f7.len() ==> #[trigger] f7[i] != '|');

    let sep = seq!['|'];
    let empty = Seq::<char>::empty();
    let u1 = f0 + sep;
    let u2 = u1 + f1;
    let u3 = u2 + sep;
    let u4 = u3 + f2;
    let u5 = u4 + sep;
    let u6 = u5 + f3;
    let u7 = u6 + sep;
    let u8 = u7 + f4;
    let u9 = u8 + sep;
    let u10 = u9 + f5;
    let u11 = u10 + sep;
    let u12 = u11 + f6;
    let u13 = u12 + sep;
    let u14 = u13 + f7;

    lemma_split_single(f0);
    lemma_split_sep_append(f0);
    assert(split_chars(u1) =~~= seq![f0, empty]);
    lemma_split_no_sep_append(u1, f1);
    assert(split_chars(u2) =~~= seq![f0, f1]);
    lemma_split_sep_append(u2);
    assert(split_chars(u3) =~~= seq![f0, f1, empty]);
    lemma_split_no_sep_append(u3, f2);
    assert(split_chars(u4) =~~= seq![f0, f1, f2]);
    lemma_split_sep_append(u4);
    assert(split_chars(u5) =~~= seq![f0, f1, f2, empty]);
    lemma_split_no_sep_append(u5, f3);
    assert(split_chars(u6) =~~= seq![f0, f1, f2, f3]);
    lemma_split_sep_append(u6);
    assert(split_chars(u7) =~~= seq![f0, f1, f2, f3, empty]);
    lemma_split_no_sep_append(u7, f4);
    assert(split_chars(u8) =~~= seq![f0, f1, f2, f3, f4]);
    lemma_split_sep_append(u8);
    assert(split_chars(u9) =~~= seq![f0, f1, f2, f3, f4, empty]);
    lemma_split_no_sep_append(u9, f5);
    assert(split_chars(u10) =~~= seq![f0, f1, f2, f3, f4, f5]);
    lemma_split_sep_append(u10);
    assert(split_chars(u11) =~~= seq![f0, f1, f2, f3, f4, f5, empty]);
    lemma_split_no_sep_append(u11, f6);
    assert(split_chars(u12) =~~= seq![f0, f1, f2, f3, f4, f5, f6]);
    lemma_split_sep_append(u12);
    assert(split_chars(u13) =~~= seq![f0, f1, f2, f3, f4, f5, f6, empty]);
    lemma_split_no_sep_append(u13, f7);
    assert(split_chars(u14) =~~= seq![f0, f1, f2, f3, f4, f5, f6, f7]);

    assert(wire_of(g) == u14);
    let parts = split_chars(wire_of(g));
    assert(parts[0] == f0);
    assert(parts[1] == f1);
    assert(parts[2] == f2);
    assert(parts[3] == f3);
    assert(parts[4] == f4);
    assert(parts[5] == f5);
    assert(parts[6] == f6);
    assert(parts[7] == f7);

    let applied = apply_wire(h, parts);
    assert(applied.paddle1 == g.paddle1);
    assert(applied.paddle2 == g.paddle2);
    assert(applied.ball == g.ball);
    assert(applied.score == g.score);
    assert(applied == (GameState { rng: h.rng, ..g }));
}

} // verus!
