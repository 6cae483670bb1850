use pong::codec::PongInputState;
use pong::sim::{
    dimension_strength, Ball, PlayerInputs, PongGameConfig, PongGameState, ARENA_CX, ARENA_CY,
    BONUS_PER_TICK,
};

fn inputs(left: f32, right: f32) -> PlayerInputs {
    PlayerInputs {
        left: PongInputState::from_input(left.to_bits()),
        right: PongInputState::from_input(right.to_bits()),
    }
}

#[test]
fn test_deterministic() {
    let mut states: [PongGameState; 7] = [
        PongGameState::new(),
        PongGameState::new(),
        PongGameState::new(),
        PongGameState::new(),
        PongGameState::new(),
        PongGameState::new(),
        PongGameState::new(),
    ];

    for s in states.iter_mut() {
        for frame in 0..5000 {
            let elapsed_time = (frame as f32) * (1.0 / 60.0);
            s.process_logic(&inputs(elapsed_time.sin(), elapsed_time.cos()));
        }
    }

    for s in states.iter().skip(1) {
        assert_eq!(&states[0], s);
    }
}

#[test]
fn pong_test_deterministic() {
    let mut a = PongGameState::new();
    let mut b = PongGameState::new();
    for frame in 0..5000 {
        let elapsed_time = (frame as f32) * (1.0 / 60.0);
        let i = inputs(elapsed_time.sin(), elapsed_time.cos());
        a.process_logic(&i);
        b.process_logic(&i);
    }
    assert_eq!(a, b);
}

#[test]
fn zero_input_stays_horizontal() {
    let mut s = PongGameState::new();
    let initial_left = s.left_paddle;
    let initial_right = s.right_paddle;
    let mut expected_bonus: i64 = 0;
    for _ in 0..600 {
        s.process_logic(&inputs(0.0, 0.0));
        assert_eq!(s.ball.dir_y, 0);
        assert_eq!(s.left_paddle, initial_left);
        assert_eq!(s.right_paddle, initial_right);
        // the bonus speed grows linearly between resets
        if s.ball.bonus_speed == 0 {
            expected_bonus = 0;
        } else {
            expected_bonus += BONUS_PER_TICK;
        }
        assert_eq!(s.ball.bonus_speed, expected_bonus);
    }
}

#[test]
fn score_on_left_miss() {
    // The ball starts at the centre moving left at paddle-free height, so the
    // right player scores first.
    let mut s = PongGameState::new();
    assert_eq!(s.ball.dir_x, -65536);
    let mut ticks = 0;
    while s.right_score.value == 0 {
        s.process_logic(&inputs(0.0, 0.0));
        ticks += 1;
        assert!(ticks < 200, "the ball never reached the left edge");
    }
    assert_eq!(s.right_score.value, 1);
    assert_eq!(s.left_score.value, 0);
    // reset: centre position, bonus gone, horizontal direction flipped
    assert_eq!(s.ball.x, ARENA_CX);
    assert_eq!(s.ball.y, ARENA_CY);
    assert_eq!(s.ball.bonus_speed, 0);
    assert_eq!(s.ball.dir_x, 65536);
    assert_eq!(s.ball.dir_y, 0);
}

#[test]
fn reset_toggles_direction_once() {
    let mut b = Ball::new(65536);
    assert_eq!((b.dir_x, b.dir_y), (-65536, 0));
    let once = {
        let mut c = b;
        c.reset();
        c
    };
    b.reset();
    b.reset();
    // two consecutive resets: identical but for the sign of dir_x
    assert_eq!(b.x, once.x);
    assert_eq!(b.y, once.y);
    assert_eq!(b.dir_y, once.dir_y);
    assert_eq!(b.bonus_speed, once.bonus_speed);
    assert_eq!(b.dir_x, -once.dir_x);
}

#[test]
fn dimension_strength_maps_keys_to_axis() {
    assert_eq!(dimension_strength(true, false), 65536);
    assert_eq!(dimension_strength(false, true), -65536);
    assert_eq!(dimension_strength(false, false), 0);
    assert_eq!(dimension_strength(true, true), 0);
}

#[test]
fn standard_config_constants() {
    let c = PongGameConfig::standard();
    assert_eq!(c.arena_w, 1000 * 65536);
    assert_eq!(c.arena_h, 800 * 65536);
    assert_eq!(c.paddle_w, 25 * 65536);
    assert_eq!(c.paddle_h, 175 * 65536);
    assert_eq!(c.ball_size, 20 * 65536);
    assert_eq!(c.ball_speed, 400 * 65536);
    assert_eq!(c.max_rollback_frames, 128);
}
