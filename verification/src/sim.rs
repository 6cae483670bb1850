//! The deterministic Pong simulation: paddles, ball and scores advanced by a
//! fixed 1/60 s time slice. Every quantity is a Q16 fixed-point `i64`
//! (see `num`), so a tick is an exact integer function of the previous state
//! and the two players' inputs: the same state and inputs give bit-identical
//! results on every machine.
//!
//! Velocities and positions are saturated at bounds far outside the playable
//! arena (`VEL_LIMIT`, `POS_LIMIT`), so the arithmetic of a tick stays in
//! range for every well-formed state; inside the arena the saturation never
//! engages.

use vstd::prelude::*;
use crate::num::{
    axis_q16, clamp_i64, isqrt64, lemma_axis_zero, lemma_isqrt_unique, lemma_tdiv_le, sp_abs,
    sp_axis_q16, sp_clamp, sp_isqrt, sp_sign, sp_tdiv, tdiv,
};
use vstd::arithmetic::div_mod::{lemma_basic_div, lemma_div_multiples_vanish};
use crate::codec::PongInputState;

verus! {

/// Arena width: 1000 units, Q16.
pub const ARENA_W: i64 = 65536000;

/// Arena height: 800 units, Q16.
pub const ARENA_H: i64 = 52428800;

/// Paddle width: 25 units, Q16.
pub const PADDLE_W: i64 = 1638400;

/// Paddle height: 175 units, Q16.
pub const PADDLE_H: i64 = 11468800;

/// Ball radius: 20 units, Q16.
pub const BALL_R: i64 = 1310720;

/// Base ball speed: 400 units per second, Q16.
pub const BALL_SPEED: i64 = 26214400;

/// Paddle acceleration from input, in units per second squared (unscaled).
pub const PADDLE_FORCE: i64 = 1000;

/// Paddle friction, in units per second squared (unscaled).
pub const PADDLE_FRICTION: i64 = 300;

/// Friction applied to a paddle each tick: 300/60 units per second, Q16.
pub const FRICTION_PER_TICK: i64 = 327680;

/// Ball speed gained each tick: 50/60 units per second, Q16 (truncated).
pub const BONUS_PER_TICK: i64 = 54613;

/// A paddle slower than this (0.01 units per second, Q16) adds no spin.
pub const SPIN_THRESHOLD: i64 = 655;

/// Saturation bound for velocities and the ball's bonus speed (2^40).
pub const VEL_LIMIT: i64 = 0x100_0000_0000;

/// Saturation bound for positions (2^45).
pub const POS_LIMIT: i64 = 0x2000_0000_0000;

/// Divisor that multiplies a Q16 velocity by dt = 1/60: one tick of motion.
pub const DT_DIV: i64 = 60;

/// Divisor that takes a Q16 direction times a Q16 speed to one tick of
/// motion: SCALE * 60.
pub const DIR_DT_DIV: i64 = 3932160;

/// Arena centre.
pub const ARENA_CX: i64 = 32768000;

/// Arena centre.
pub const ARENA_CY: i64 = 26214400;

/// The fixed game constants of this build, as one value.
pub struct PongGameConfig {
    pub arena_w: i64,
    pub arena_h: i64,
    pub paddle_w: i64,
    pub paddle_h: i64,
    pub paddle_force: i64,
    pub paddle_friction: i64,
    pub ball_size: i64,
    pub ball_speed: i64,
    pub max_rollback_frames: usize,
}

impl PongGameConfig {
    /// The constants this build was compiled with.
    pub fn standard() -> (r: PongGameConfig)
        ensures
            r.arena_w == ARENA_W,
            r.arena_h == ARENA_H,
            r.paddle_w == PADDLE_W,
            r.paddle_h == PADDLE_H,
            r.paddle_force == PADDLE_FORCE,
            r.paddle_friction == PADDLE_FRICTION,
            r.ball_size == BALL_R,
            r.ball_speed == BALL_SPEED,
            r.max_rollback_frames == 128,
    {
        PongGameConfig {
            arena_w: ARENA_W,
            arena_h: ARENA_H,
            paddle_w: PADDLE_W,
            paddle_h: PADDLE_H,
            paddle_force: PADDLE_FORCE,
            paddle_friction: PADDLE_FRICTION,
            ball_size: BALL_R,
            ball_speed: BALL_SPEED,
            max_rollback_frames: 128,
        }
    }
}

/// The pair of input frames that advance one tick, one per player, held as
/// named sides (the left player always comes first where the two are
/// ordered).
#[derive(Clone, Copy, PartialEq, Eq, Structural, Debug)]
pub struct PlayerInputs {
    pub left: PongInputState,
    pub right: PongInputState,
}

impl PlayerInputs {
    /// The input of one side: `true` picks the left player.
    pub open spec fn sp_side(self, left: bool) -> PongInputState {
        if left {
            self.left
        } else {
            self.right
        }
    }

    /// Replace the input of one side.
    pub open spec fn sp_with_side(self, left: bool, v: PongInputState) -> PlayerInputs {
        if left {
            PlayerInputs { left: v, right: self.right }
        } else {
            PlayerInputs { left: self.left, right: v }
        }
    }

    pub fn side(&self, left: bool) -> (r: PongInputState)
        ensures
            r == self.sp_side(left),
    {
        if left {
            self.left
        } else {
            self.right
        }
    }

    pub fn with_side(self, left: bool, v: PongInputState) -> (r: PlayerInputs)
        ensures
            r == self.sp_with_side(left, v),
    {
        if left {
            PlayerInputs { left: v, right: self.right }
        } else {
            PlayerInputs { left: self.left, right: v }
        }
    }
}

/// The axis strength a player is steering with, from two digital keys:
/// one Q16 unit toward the positive key, minus one toward the negative key.
pub fn dimension_strength(positive_down: bool, negative_down: bool) -> (r: i64)
    ensures
        r == (if positive_down { 65536int } else { 0int }) - (if negative_down {
            65536int
        } else {
            0int
        }),
{
    let p: i64 = if positive_down {
        65536
    } else {
        0
    };
    let n: i64 = if negative_down {
        65536
    } else {
        0
    };
    p - n
}

/// One player's paddle. `x` never changes after construction; the walls
/// reflect `velocity` without clamping `y`, so a fast paddle can briefly
/// swing outside the arena — deliberate, it is part of the game's feel.
#[derive(Clone, Copy, PartialEq, Eq, Structural, Debug)]
pub struct Paddle {
    pub x: i64,
    pub y: i64,
    pub velocity: i64,
    pub on_left_side: bool,
}

impl Paddle {
    pub open spec fn wf(self) -> bool {
        &&& self.x as int == if self.on_left_side {
            0int
        } else {
            ARENA_W - PADDLE_W
        }
        &&& -POS_LIMIT <= self.y <= POS_LIMIT
        &&& -VEL_LIMIT <= self.velocity <= VEL_LIMIT
    }

    pub open spec fn sp_new(on_left_side: bool) -> Paddle {
        Paddle {
            x: if on_left_side {
                0i64
            } else {
                (ARENA_W - PADDLE_W) as i64
            },
            y: 0i64,
            velocity: 0i64,
            on_left_side: on_left_side,
        }
    }

    pub fn new(on_left_side: bool) -> (r: Paddle)
        ensures
            r == Paddle::sp_new(on_left_side),
            r.wf(),
    {
        let x: i64 = if on_left_side {
            0
        } else {
            ARENA_W - PADDLE_W
        };
        Paddle { x, y: 0, velocity: 0, on_left_side }
    }

    /// One tick of paddle motion under axis input `u` (Q16, in [-1, 1]):
    /// accelerate by the input, apply friction toward zero (snapping to rest
    /// below one tick's worth of friction), move, and reflect the velocity at
    /// the walls without clamping the position.
    pub open spec fn sp_step(self, u: int) -> Paddle {
        let v1 = sp_clamp(
            self.velocity + sp_tdiv(u * (PADDLE_FORCE + PADDLE_FRICTION), DT_DIV as int),
            -VEL_LIMIT as int,
            VEL_LIMIT as int,
        );
        let v2 = if sp_abs(v1) < FRICTION_PER_TICK {
            0int
        } else if v1 > 0 {
            v1 - FRICTION_PER_TICK
        } else {
            v1 + FRICTION_PER_TICK
        };
        let y1 = sp_clamp(self.y + sp_tdiv(v2, DT_DIV as int), -POS_LIMIT as int, POS_LIMIT as int);
        let v3 = if y1 <= 0 || y1 + PADDLE_H >= ARENA_H {
            -v2
        } else {
            v2
        };
        Paddle { x: self.x, y: y1 as i64, velocity: v3 as i64, on_left_side: self.on_left_side }
    }

    pub fn process_movement(&mut self, vertical_input: i64)
        requires
            old(self).wf(),
            -65536 <= vertical_input <= 65536,
        ensures
            *final(self) == old(self).sp_step(vertical_input as int),
            final(self).wf(),
    {
        let force: i64 = PADDLE_FORCE + PADDLE_FRICTION;
        assert(-85196800 <= vertical_input * force <= 85196800) by (nonlinear_arith)
            requires
                -65536 <= vertical_input <= 65536,
                force == 1300i64,
        ;
        let accel = tdiv(vertical_input * force, DT_DIV);
        let v1 = clamp_i64(self.velocity + accel, -VEL_LIMIT, VEL_LIMIT);
        let a1: i64 = if v1 >= 0 {
            v1
        } else {
            -v1
        };
        let v2: i64 = if a1 < FRICTION_PER_TICK {
            0
        } else if v1 > 0 {
            v1 - FRICTION_PER_TICK
        } else {
            v1 + FRICTION_PER_TICK
        };
        let y1 = clamp_i64(self.y + tdiv(v2, DT_DIV), -POS_LIMIT, POS_LIMIT);
        self.velocity = if y1 <= 0 || y1 + PADDLE_H >= ARENA_H {
            -v2
        } else {
            v2
        };
        self.y = y1;
    }

    /// Where the ball centre lands when it bounces off this paddle's face.
    pub open spec fn sp_hit_x(self) -> int {
        if self.on_left_side {
            self.x + PADDLE_W + BALL_R
        } else {
            self.x - BALL_R
        }
    }

    pub fn get_ball_hit_x(&self) -> (r: i64)
        requires
            self.wf(),
        ensures
            r as int == self.sp_hit_x(),
    {
        if self.on_left_side {
            self.x + PADDLE_W + BALL_R
        } else {
            self.x - BALL_R
        }
    }

    /// Whether the ball centre lies inside this paddle's rectangle expanded
    /// by the ball radius on all sides.
    pub open spec fn sp_ball_overlaps(self, ball: Ball) -> bool {
        let lx = ball.x - self.x;
        let ly = ball.y - self.y;
        &&& -BALL_R <= lx <= PADDLE_W + BALL_R
        &&& -BALL_R <= ly <= PADDLE_H + BALL_R
    }

    pub fn ball_overlaps(&self, ball: &Ball) -> (r: bool)
        requires
            self.wf(),
            ball.wf(),
        ensures
            r == self.sp_ball_overlaps(*ball),
    {
        let lx = ball.x - self.x;
        let ly = ball.y - self.y;
        (lx >= -BALL_R && lx <= PADDLE_W + BALL_R) && (ly >= -BALL_R && ly <= PADDLE_H + BALL_R)
    }
}

/// The ball: position, an approximately unit Q16 direction vector (never the
/// zero vector), and the speed bonus it has gathered since the last reset.
#[derive(Clone, Copy, PartialEq, Eq, Structural, Debug)]
pub struct Ball {
    pub x: i64,
    pub y: i64,
    pub dir_x: i64,
    pub dir_y: i64,
    pub bonus_speed: i64,
}

impl Ball {
    pub open spec fn wf(self) -> bool {
        &&& -POS_LIMIT <= self.x <= POS_LIMIT
        &&& -POS_LIMIT <= self.y <= POS_LIMIT
        &&& -65536 <= self.dir_x <= 65536
        &&& -65536 <= self.dir_y <= 65536
        &&& !(self.dir_x == 0 && self.dir_y == 0)
        &&& 0 <= self.bonus_speed <= VEL_LIMIT
    }

    /// Reset to the arena centre, flip the horizontal direction and renounce
    /// the gathered speed: position = centre, direction = the unit vector
    /// along `(-dir_x, 0)`, bonus = 0.
    pub open spec fn sp_reset(self) -> Ball {
        let d = sp_normalize(-self.dir_x as int, 0);
        Ball {
            x: ARENA_CX,
            y: ARENA_CY,
            dir_x: d.0 as i64,
            dir_y: d.1 as i64,
            bonus_speed: 0i64,
        }
    }

    pub fn reset(&mut self)
        requires
            -65536 <= old(self).dir_x <= 65536,
        ensures
            *final(self) == old(self).sp_reset(),
            final(self).wf(),
    {
        let (ndx, ndy) = normalize_dir(-self.dir_x, 0);
        self.x = ARENA_CX;
        self.y = ARENA_CY;
        self.dir_x = ndx;
        self.dir_y = ndy;
        self.bonus_speed = 0;
    }

    pub open spec fn sp_new(horizontal_multiplier: int) -> Ball {
        (Ball {
            x: 0i64,
            y: 0i64,
            dir_x: horizontal_multiplier as i64,
            dir_y: 0i64,
            bonus_speed: 0i64,
        }).sp_reset()
    }

    pub fn new(horizontal_multiplier: i64) -> (r: Ball)
        requires
            -65536 <= horizontal_multiplier <= 65536,
        ensures
            r == Ball::sp_new(horizontal_multiplier as int),
            r.wf(),
    {
        let mut to_return = Ball {
            x: 0,
            y: 0,
            dir_x: horizontal_multiplier,
            dir_y: 0,
            bonus_speed: 0,
        };
        to_return.reset();
        to_return
    }

    /// Bounce off one paddle, if the ball overlaps it: the horizontal
    /// direction is multiplied by -2 (the magnitude doubling is deliberate,
    /// it is renormalised away but biases the new direction), the ball snaps
    /// to the paddle's face, and a moving paddle adds its sign as spin.
    pub open spec fn sp_bounce(self, p: Paddle) -> Ball {
        if p.sp_ball_overlaps(self) {
            let dx1 = self.dir_x * -2;
            let dy1 = if sp_abs(p.velocity as int) > SPIN_THRESHOLD {
                self.dir_y + sp_sign(p.velocity as int) * 65536
            } else {
                self.dir_y as int
            };
            let d = sp_normalize(dx1 as int, dy1);
            Ball {
                x: p.sp_hit_x() as i64,
                y: self.y,
                dir_x: d.0 as i64,
                dir_y: d.1 as i64,
                bonus_speed: self.bonus_speed,
            }
        } else {
            self
        }
    }

    /// Clamp and reflect on the top and bottom walls.
    pub open spec fn sp_walls(self) -> Ball {
        let b1 = if self.y <= BALL_R {
            Ball { x: self.x, y: BALL_R, dir_x: self.dir_x, dir_y: (-self.dir_y) as i64, bonus_speed: self.bonus_speed }
        } else {
            self
        };
        if b1.y >= ARENA_H - BALL_R {
            Ball {
                x: b1.x,
                y: (ARENA_H - BALL_R) as i64,
                dir_x: b1.dir_x,
                dir_y: (-b1.dir_y) as i64,
                bonus_speed: b1.bonus_speed,
            }
        } else {
            b1
        }
    }

    /// Move along the direction for one tick at the current speed, and gather
    /// a little more bonus speed.
    pub open spec fn sp_advance(self) -> Ball {
        let speed = BALL_SPEED + self.bonus_speed;
        let x1 = sp_clamp(
            self.x + sp_tdiv(self.dir_x * speed, DIR_DT_DIV as int),
            -POS_LIMIT as int,
            POS_LIMIT as int,
        );
        let y1 = sp_clamp(
            self.y + sp_tdiv(self.dir_y * speed, DIR_DT_DIV as int),
            -POS_LIMIT as int,
            POS_LIMIT as int,
        );
        let bonus = sp_clamp(self.bonus_speed + BONUS_PER_TICK, 0, VEL_LIMIT as int);
        Ball {
            x: x1 as i64,
            y: y1 as i64,
            dir_x: self.dir_x,
            dir_y: self.dir_y,
            bonus_speed: bonus as i64,
        }
    }

    /// One tick of ball motion: bounce off the left paddle then the right,
    /// in that fixed order, then the walls, then advance.
    pub open spec fn sp_step(self, left: Paddle, right: Paddle) -> Ball {
        self.sp_bounce(left).sp_bounce(right).sp_walls().sp_advance()
    }

    fn bounce_off(&mut self, p: &Paddle)
        requires
            old(self).wf(),
            p.wf(),
        ensures
            *final(self) == old(self).sp_bounce(*p),
            final(self).wf(),
    {
        if p.ball_overlaps(self) {
            assert(-131072 <= self.dir_x * -2 <= 131072) by (nonlinear_arith)
                requires
                    -65536 <= self.dir_x <= 65536,
            ;
            let dx1 = self.dir_x * -2;
            let pv = p.velocity;
            let pva: i64 = if pv >= 0 {
                pv
            } else {
                -pv
            };
            let dy1: i64 = if pva > SPIN_THRESHOLD {
                if pv > 0 {
                    self.dir_y + 65536
                } else {
                    self.dir_y - 65536
                }
            } else {
                self.dir_y
            };
            let (ndx, ndy) = normalize_dir(dx1, dy1);
            self.x = p.get_ball_hit_x();
            self.dir_x = ndx;
            self.dir_y = ndy;
        }
    }

    pub fn process_movement(&mut self, left_paddle: &Paddle, right_paddle: &Paddle)
        requires
            old(self).wf(),
            left_paddle.wf(),
            right_paddle.wf(),
        ensures
            *final(self) == old(self).sp_step(*left_paddle, *right_paddle),
            final(self).wf(),
    {
        self.bounce_off(left_paddle);
        self.bounce_off(right_paddle);

        if self.y <= BALL_R {
            self.dir_y = -self.dir_y;
            self.y = BALL_R;
        }
        if self.y >= ARENA_H - BALL_R {
            self.dir_y = -self.dir_y;
            self.y = ARENA_H - BALL_R;
        }

        let speed = BALL_SPEED + self.bonus_speed;
        assert(-0x4000_0000_0000_0000 <= self.dir_x * speed <= 0x4000_0000_0000_0000)
            by (nonlinear_arith)
            requires
                -65536 <= self.dir_x <= 65536,
                0 <= speed <= 0x100_0190_0000i64,
        ;
        assert(-0x4000_0000_0000_0000 <= self.dir_y * speed <= 0x4000_0000_0000_0000)
            by (nonlinear_arith)
            requires
                -65536 <= self.dir_y <= 65536,
                0 <= speed <= 0x100_0190_0000i64,
        ;
        let mx = tdiv(self.dir_x * speed, DIR_DT_DIV);
        let my = tdiv(self.dir_y * speed, DIR_DT_DIV);
        self.x = clamp_i64(self.x + mx, -POS_LIMIT, POS_LIMIT);
        self.y = clamp_i64(self.y + my, -POS_LIMIT, POS_LIMIT);
        self.bonus_speed = clamp_i64(self.bonus_speed + BONUS_PER_TICK, 0, VEL_LIMIT);
    }
}

/// Renormalise a Q16 direction vector to (approximately) unit length,
/// truncating toward zero; a degenerate vector becomes the unit vector along
/// the positive horizontal axis.
pub open spec fn sp_normalize(dx: int, dy: int) -> (int, int) {
    let n = sp_isqrt((dx * dx + dy * dy) as nat) as int;
    if n == 0 {
        (65536int, 0int)
    } else {
        let nx = sp_tdiv(dx * 65536, n);
        let ny = sp_tdiv(dy * 65536, n);
        if nx == 0 && ny == 0 {
            (65536int, 0int)
        } else {
            (nx, ny)
        }
    }
}

pub fn normalize_dir(dx: i64, dy: i64) -> (r: (i64, i64))
    requires
        -262144 <= dx <= 262144,
        -262144 <= dy <= 262144,
    ensures
        r.0 as int == sp_normalize(dx as int, dy as int).0,
        r.1 as int == sp_normalize(dx as int, dy as int).1,
        -65536 <= r.0 <= 65536,
        -65536 <= r.1 <= 65536,
        !(r.0 == 0 && r.1 == 0),
{
    assert(0 <= dx * dx <= 0x10_0000_0000 && 0 <= dy * dy <= 0x10_0000_0000) by (nonlinear_arith)
        requires
            -262144 <= dx <= 262144,
            -262144 <= dy <= 262144,
    ;
    let nn: u64 = (dx * dx + dy * dy) as u64;
    let n = isqrt64(nn);
    if n == 0 {
        (65536, 0)
    } else {
        proof {
            assert(sp_abs(dx as int) <= n && sp_abs(dy as int) <= n) by (nonlinear_arith)
                requires
                    dx * dx + dy * dy == nn,
                    0 <= dy * dy,
                    0 <= dx * dx,
                    n * n <= nn,
                    nn < (n + 1) * (n + 1),
                    0 <= n,
            ;
            lemma_tdiv_le(dx as int * 65536, n as int, 65536);
            lemma_tdiv_le(dy as int * 65536, n as int, 65536);
            assert(sp_abs(dx as int * 65536) <= n as int * 65536) by (nonlinear_arith)
                requires
                    sp_abs(dx as int) <= n,
            ;
            assert(sp_abs(dy as int * 65536) <= n as int * 65536) by (nonlinear_arith)
                requires
                    sp_abs(dy as int) <= n,
            ;
        }
        proof {
            assert(n <= 0x80000) by (nonlinear_arith)
                requires
                    n * n <= nn,
                    nn <= 0x20_0000_0000u64,
            ;
        }
        let ni: i64 = n as i64;
        assert(-0x4_0000_0000 <= dx * 65536 <= 0x4_0000_0000
            && -0x4_0000_0000 <= dy * 65536 <= 0x4_0000_0000) by (nonlinear_arith)
            requires
                -262144 <= dx <= 262144,
                -262144 <= dy <= 262144,
        ;
        let nx = tdiv(dx * 65536, ni);
        let ny = tdiv(dy * 65536, ni);
        if nx == 0 && ny == 0 {
            (65536, 0)
        } else {
            (nx, ny)
        }
    }
}

/// One player's score.
#[derive(Clone, Copy, PartialEq, Eq, Structural, Debug)]
pub struct Score {
    pub value: i32,
    pub left_side: bool,
}

impl Score {
    pub fn new(on_left_side: bool) -> (r: Score)
        ensures
            r == (Score { value: 0i32, left_side: on_left_side }),
    {
        Score { value: 0, left_side: on_left_side }
    }

    /// One point more, saturating at the representable maximum.
    pub open spec fn sp_inc(self) -> Score {
        if self.value < i32::MAX {
            Score { value: (self.value + 1) as i32, left_side: self.left_side }
        } else {
            self
        }
    }
}

/// The whole world for one frame.
#[derive(Clone, Copy, PartialEq, Eq, Structural, Debug)]
pub struct PongGameState {
    pub left_paddle: Paddle,
    pub right_paddle: Paddle,
    pub ball: Ball,
    pub left_score: Score,
    pub right_score: Score,
}

impl PongGameState {
    pub open spec fn wf(self) -> bool {
        &&& self.left_paddle.wf()
        &&& self.left_paddle.on_left_side
        &&& self.right_paddle.wf()
        &&& !self.right_paddle.on_left_side
        &&& self.ball.wf()
    }

    pub open spec fn sp_new() -> PongGameState {
        PongGameState {
            left_paddle: Paddle::sp_new(true),
            right_paddle: Paddle::sp_new(false),
            ball: Ball::sp_new(65536),
            left_score: Score { value: 0i32, left_side: true },
            right_score: Score { value: 0i32, left_side: false },
        }
    }

    pub fn new() -> (r: PongGameState)
        ensures
            r == PongGameState::sp_new(),
            r.wf(),
    {
        PongGameState {
            left_paddle: Paddle::new(true),
            right_paddle: Paddle::new(false),
            ball: Ball::new(65536),
            left_score: Score::new(true),
            right_score: Score::new(false),
        }
    }

    /// One paddle advanced by the axis its player's input bits denote.
    pub open spec fn sp_paddle_input(self, bits: u32, is_on_left_side: bool) -> PongGameState {
        if is_on_left_side {
            PongGameState { left_paddle: self.left_paddle.sp_step(sp_axis_q16(bits)), ..self }
        } else {
            PongGameState { right_paddle: self.right_paddle.sp_step(sp_axis_q16(bits)), ..self }
        }
    }

    pub fn process_paddle_input(&mut self, input_bits: u32, is_on_left_side: bool)
        requires
            old(self).wf(),
        ensures
            *final(self) == old(self).sp_paddle_input(input_bits, is_on_left_side),
            final(self).wf(),
    {
        let u = axis_q16(input_bits);
        if is_on_left_side {
            self.left_paddle.process_movement(u);
        } else {
            self.right_paddle.process_movement(u);
        }
    }

    /// One full tick: both paddles, then the ball (left paddle first), then
    /// scoring. A ball past the left edge scores for the right player and
    /// resets; then likewise past the right edge for the left player.
    /// (Opaque: callers reason about a tick through the contracts of
    /// `process_logic` and the lemmas here, not by unfolding the physics.)
    #[verifier::opaque]
    pub open spec fn sp_step(self, left_bits: u32, right_bits: u32) -> PongGameState {
        let s1 = self.sp_paddle_input(left_bits, true).sp_paddle_input(right_bits, false);
        let b1 = s1.ball.sp_step(s1.left_paddle, s1.right_paddle);
        let s2 = PongGameState { ball: b1, ..s1 };
        let s3 = if b1.x <= -BALL_R {
            PongGameState { right_score: s2.right_score.sp_inc(), ball: s2.ball.sp_reset(), ..s2 }
        } else {
            s2
        };
        if s3.ball.x >= ARENA_W + BALL_R {
            PongGameState { left_score: s3.left_score.sp_inc(), ball: s3.ball.sp_reset(), ..s3 }
        } else {
            s3
        }
    }

    pub fn process_logic(&mut self, inputs: &PlayerInputs)
        requires
            old(self).wf(),
        ensures
            *final(self) == old(self).sp_step(inputs.left.input, inputs.right.input),
            final(self).wf(),
    {
        proof {
            reveal(PongGameState::sp_step);
        }
        self.process_paddle_input(inputs.left.input, true);
        self.process_paddle_input(inputs.right.input, false);

        let mut ball = self.ball;
        ball.process_movement(&self.left_paddle, &self.right_paddle);
        self.ball = ball;

        if self.ball.x <= -BALL_R {
            if self.right_score.value < i32::MAX {
                self.right_score.value = self.right_score.value + 1;
            }
            let mut b = self.ball;
            b.reset();
            self.ball = b;
        }
        if self.ball.x >= ARENA_W + BALL_R {
            if self.left_score.value < i32::MAX {
                self.left_score.value = self.left_score.value + 1;
            }
            let mut b = self.ball;
            b.reset();
            self.ball = b;
        }
    }
}

/// The state after replaying a sequence of input pairs, one tick each, in
/// order.
pub open spec fn sp_replay(s: PongGameState, inputs: Seq<PlayerInputs>) -> PongGameState
    decreases inputs.len(),
{
    if inputs.len() == 0 {
        s
    } else {
        sp_replay(s.sp_step(inputs[0].left.input, inputs[0].right.input), inputs.drop_first())
    }
}

/// Replaying one more input pair at the end of a sequence is one more tick
/// after replaying the sequence.
pub proof fn lemma_replay_push(s: PongGameState, xs: Seq<PlayerInputs>, x: PlayerInputs)
    ensures
        sp_replay(s, xs.push(x)) == sp_replay(s, xs).sp_step(x.left.input, x.right.input),
    decreases xs.len(),
{
    reveal_with_fuel(sp_replay, 3);
    if xs.len() == 0 {
        assert(xs.push(x)[0] == x);
        assert(xs.push(x).drop_first() =~= Seq::<PlayerInputs>::empty());
    } else {
        assert(xs.push(x)[0] == xs[0]);
        assert(xs.push(x).drop_first() =~= xs.drop_first().push(x));
        lemma_replay_push(s.sp_step(xs[0].left.input, xs[0].right.input), xs.drop_first(), x);
    }
}

/// Determinism: a tick is a pure function of the state and the inputs, so
/// any two replays of the same input sequence from the same state end in the
/// same world, bit for bit.
pub proof fn lemma_replay_deterministic(
    s: PongGameState,
    inputs: Seq<PlayerInputs>,
    r1: PongGameState,
    r2: PongGameState,
)
    requires
        r1 == sp_replay(s, inputs),
        r2 == sp_replay(s, inputs),
    ensures
        r1 == r2,
{
}

/// What `sp_normalize` does to a purely horizontal vector: the unit vector
/// with the same sign, or the positive unit vector for the zero vector.
pub proof fn lemma_normalize_horizontal(d: int)
    requires
        -131072 <= d <= 131072,
    ensures
        sp_normalize(d, 0) == (if d == 0 {
            (65536int, 0int)
        } else {
            (sp_sign(d) * 65536, 0int)
        }),
{
    let a = sp_abs(d);
    assert(0 * 0 == 0 && d * d == a * a && 0 <= a * a && a * a < (a + 1) * (a + 1))
        by (nonlinear_arith)
        requires
            a == sp_abs(d),
    ;
    lemma_isqrt_unique((d * d + 0 * 0) as nat, a as nat);
    let n = sp_isqrt((d * d + 0 * 0) as nat) as int;
    assert(n == a);
    if d == 0 {
    } else {
        assert(0int * 65536 == 0) by (nonlinear_arith);
        lemma_basic_div(0, a);
        assert(sp_tdiv(0int * 65536, n) == 0);
        if d > 0 {
            assert(d * 65536 >= 0 && sp_sign(d) * 65536 == 65536) by (nonlinear_arith)
                requires
                    d > 0,
                    sp_sign(d) == 1,
            ;
            lemma_div_multiples_vanish(65536, d);
            assert(sp_tdiv(d * 65536, n) == 65536);
        } else {
            assert(d * 65536 < 0 && -(d * 65536) == (-d) * 65536 && sp_sign(d) * 65536 == -65536)
                by (nonlinear_arith)
                requires
                    d < 0,
                    sp_sign(d) == -1,
            ;
            lemma_div_multiples_vanish(65536, -d);
            assert(sp_tdiv(d * 65536, n) == -65536);
        }
    }
}

/// Resetting the ball is idempotent but for the horizontal direction, whose
/// sign toggles exactly once per reset: a second consecutive reset changes
/// nothing else.
pub proof fn lemma_reset_idempotent(b: Ball)
    requires
        -65536 <= b.dir_x <= 65536,
    ensures
        ({
            let once = b.sp_reset();
            let twice = once.sp_reset();
            &&& twice.x == once.x
            &&& twice.y == once.y
            &&& twice.dir_y == once.dir_y
            &&& twice.bonus_speed == once.bonus_speed
            &&& twice.dir_x == -once.dir_x
            &&& once.dir_x == 65536 || once.dir_x == -65536
        }),
{
    lemma_normalize_horizontal(-b.dir_x as int);
    let once = b.sp_reset();
    assert(once.dir_x == 65536 || once.dir_x == -65536);
    lemma_normalize_horizontal(-once.dir_x as int);
}

/// With no input, a resting paddle stays exactly where it is.
pub proof fn lemma_paddle_step_zero(p: Paddle)
    requires
        p.wf(),
        p.velocity == 0,
    ensures
        p.sp_step(0) == p,
{
    assert(0int * (PADDLE_FORCE + PADDLE_FRICTION) == 0) by (nonlinear_arith);
    lemma_basic_div(0, DT_DIV as int);
    assert(sp_tdiv(0, DT_DIV as int) == 0);
    assert(p.sp_step(0).y == p.y);
    assert(p.sp_step(0).velocity == 0);
}

/// The ball gathers speed linearly: one tick of ball motion adds exactly
/// `BONUS_PER_TICK` to the bonus speed, paddle and wall collisions included,
/// up to the saturation rail. Only a score's reset (in the full game tick)
/// renounces the gathered speed.
pub proof fn lemma_bonus_grows_linearly(b: Ball, left: Paddle, right: Paddle)
    ensures
        b.sp_step(left, right).bonus_speed as int == sp_clamp(
            b.bonus_speed + BONUS_PER_TICK,
            0,
            VEL_LIMIT as int,
        ),
{
    assert(b.sp_bounce(left).bonus_speed == b.bonus_speed);
    assert(b.sp_bounce(left).sp_bounce(right).bonus_speed == b.bonus_speed);
    assert(b.sp_bounce(left).sp_bounce(right).sp_walls().bonus_speed == b.bonus_speed);
}

/// Zero-input ticks keep the game purely horizontal: resting paddles do not
/// move, and a ball travelling level stays level, through paddle bounces,
/// wall bounces, speed gain and score resets alike.
pub proof fn lemma_zero_input_horizontal(s: PongGameState)
    requires
        s.wf(),
        s.left_paddle.velocity == 0,
        s.right_paddle.velocity == 0,
        s.ball.dir_y == 0,
    ensures
        ({
            let s2 = s.sp_step(0, 0);
            &&& s2.left_paddle == s.left_paddle
            &&& s2.right_paddle == s.right_paddle
            &&& s2.ball.dir_y == 0
        }),
{
    reveal(PongGameState::sp_step);
    lemma_axis_zero();
    lemma_paddle_step_zero(s.left_paddle);
    lemma_paddle_step_zero(s.right_paddle);
    let s1 = s.sp_paddle_input(0, true).sp_paddle_input(0, false);
    assert(s1.left_paddle == s.left_paddle && s1.right_paddle == s.right_paddle);

    let b = s1.ball;
    let b1 = b.sp_bounce(s1.left_paddle);
    assert(-131072 <= b.dir_x * -2 <= 131072) by (nonlinear_arith)
        requires
            -65536 <= b.dir_x <= 65536,
    ;
    lemma_normalize_horizontal(b.dir_x * -2);
    assert(b1.dir_y == 0 && -65536 <= b1.dir_x <= 65536);

    let b2 = b1.sp_bounce(s1.right_paddle);
    assert(-131072 <= b1.dir_x * -2 <= 131072) by (nonlinear_arith)
        requires
            -65536 <= b1.dir_x <= 65536,
    ;
    lemma_normalize_horizontal(b1.dir_x * -2);
    assert(b2.dir_y == 0 && -65536 <= b2.dir_x <= 65536);

    let b3 = b2.sp_walls().sp_advance();
    assert(b3.dir_y == 0 && -65536 <= b3.dir_x <= 65536);

    lemma_normalize_horizontal(-b3.dir_x as int);
    let after = b3.sp_reset();
    assert(after.dir_y == 0);
    lemma_normalize_horizontal(-after.dir_x as int);
}

} // verus!
