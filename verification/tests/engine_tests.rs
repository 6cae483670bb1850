use pong::codec::PongInputState;
use pong::engine::{PongGame, TickRate, MAX_ROLLBACK_FRAMES};

fn bits(x: f32) -> u32 {
    x.to_bits()
}

#[test]
fn fresh_engine() {
    let g = PongGame::new(true);
    assert_eq!(g.current_frame(), 0);
    assert_eq!(g.history_len(), 1);
    assert_eq!(g.future_len(), 0);
    assert!(g.playing_on_left_side());
    let rec = g.record(0).unwrap();
    assert_eq!(rec.player_inputs.left.frame, 0);
    assert_eq!(rec.player_inputs.left.input, 0);
}

#[test]
fn history_stays_bounded() {
    let mut g = PongGame::new(true);
    let none: Vec<PongInputState> = Vec::new();
    for t in 0..300u32 {
        g.process(0, &none);
        assert_eq!(g.current_frame(), t + 1);
        assert!(g.history_len() >= 1);
        assert!(g.history_len() <= MAX_ROLLBACK_FRAMES);
        // the newest record carries the local input of the frame just taken
        let rec = g.record(0).unwrap();
        assert_eq!(rec.player_inputs.left.frame, t);
    }
    assert_eq!(g.history_len(), MAX_ROLLBACK_FRAMES);
}

#[test]
fn rollback_correction() {
    // Simulate 10 ticks predicting remote input 0, then deliver the remote
    // input for frame 7 at tick 10.
    let mut g = PongGame::new(true);
    let none: Vec<PongInputState> = Vec::new();
    for _ in 0..10 {
        g.process(0, &none);
    }
    assert_eq!(g.current_frame(), 10);
    let late = PongInputState { frame: 7, input: bits(1.0) };
    g.process(0, &vec![late]);
    assert_eq!(g.frames_rolled_back(), 3);
    assert_eq!(g.oldest_frame_delay(), 3);
    // the engine plays left, so the remote is the right side; after the tick
    // the corrected frame-7 record sits at index 3, and the correction was
    // duplicated forward through the newer records
    let corrected = g.record(3).unwrap();
    assert_eq!(corrected.player_inputs.right.frame, 7);
    assert_eq!(corrected.player_inputs.right.input, bits(1.0));
    assert_eq!(g.record(2).unwrap().player_inputs.right.input, bits(1.0));
    assert_eq!(g.record(1).unwrap().player_inputs.right.input, bits(1.0));
    // this tick's prediction duplicated the corrected input too
    assert_eq!(g.record(0).unwrap().player_inputs.right.input, bits(1.0));
    // a late input more than one frame old asks the render loop to slow down
    assert_eq!(g.rate_request(), TickRate::SlowDown);
}

#[test]
fn duplicate_late_input_resimulates_nothing() {
    let mut g = PongGame::new(true);
    let none: Vec<PongInputState> = Vec::new();
    for _ in 0..10 {
        g.process(0, &none);
    }
    let late = PongInputState { frame: 7, input: bits(1.0) };
    g.process(0, &vec![late]);
    assert_eq!(g.frames_rolled_back(), 3);
    let before: Vec<_> = (0..g.history_len()).map(|i| g.record(i).unwrap()).collect();
    // the same late input again: the slot already holds it
    g.process(0, &vec![late]);
    assert_eq!(g.frames_rolled_back(), 0);
    // every pre-existing record is unchanged, only shifted by the new tick
    for (i, rec) in before.iter().enumerate() {
        assert_eq!(g.record(i + 1).unwrap(), *rec);
    }
}

#[test]
fn future_frame_buffered_until_due() {
    let mut g = PongGame::new(true);
    let none: Vec<PongInputState> = Vec::new();
    for _ in 0..5 {
        g.process(0, &none);
    }
    assert_eq!(g.current_frame(), 5);
    // a remote input from the future arrives at tick 5
    let ahead = PongInputState { frame: 9, input: bits(1.0) };
    g.process(0, &vec![ahead]);
    assert_eq!(g.future_len(), 1);
    assert_eq!(g.rate_request(), TickRate::SpeedUp);
    // ticks 5..8 predict by duplication; the buffer is untouched
    assert_eq!(g.record(0).unwrap().player_inputs.right.input, 0);
    for _ in 0..3 {
        g.process(0, &none);
        assert_eq!(g.future_len(), 1);
        assert_eq!(g.record(0).unwrap().player_inputs.right.input, 0);
    }
    assert_eq!(g.current_frame(), 9);
    // at tick 9 the buffered input is consumed, exactly once
    g.process(0, &none);
    assert_eq!(g.future_len(), 0);
    let newest = g.record(0).unwrap();
    assert_eq!(newest.player_inputs.right.frame, 9);
    assert_eq!(newest.player_inputs.right.input, bits(1.0));
}

#[test]
fn on_time_remote_input_is_used() {
    let mut g = PongGame::new(false);
    let none: Vec<PongInputState> = Vec::new();
    g.process(bits(0.5), &none);
    // the engine plays right: its own input lands on the right side
    assert_eq!(g.record(0).unwrap().player_inputs.right.input, bits(0.5));
    // an on-time remote input (frame 1) lands on the left side
    let on_time = PongInputState { frame: 1, input: bits(-1.0) };
    g.process(bits(0.5), &vec![on_time]);
    let newest = g.record(0).unwrap();
    assert_eq!(newest.player_inputs.left.input, bits(-1.0));
    assert_eq!(newest.player_inputs.left.frame, 1);
    assert_eq!(g.rate_request(), TickRate::Nominal);
    assert_eq!(g.frames_rolled_back(), 0);
}

#[test]
fn hopelessly_late_input_is_dropped() {
    let mut g = PongGame::new(true);
    let none: Vec<PongInputState> = Vec::new();
    for _ in 0..200 {
        g.process(0, &none);
    }
    // frame 10 is far beyond the 128 retained records
    let fossil = PongInputState { frame: 10, input: bits(1.0) };
    let state_before = g.current_state();
    g.process(0, &vec![fossil]);
    assert_eq!(g.frames_rolled_back(), 0);
    assert_eq!(g.late_drops(), 1);
    // history was not corrupted: the previous newest record is intact
    assert_eq!(g.record(1).unwrap().game_after_inputs, state_before);
}

#[test]
fn local_input_carries_current_frame() {
    let mut g = PongGame::new(true);
    let none: Vec<PongInputState> = Vec::new();
    g.process(0, &none);
    g.process(0, &none);
    let f = g.local_input(bits(0.25));
    assert_eq!(f.frame, 2);
    assert_eq!(f.input, bits(0.25));
}

#[test]
fn late_delivery_converges_to_on_time_delivery() {
    // Rollback equivalence, end to end: engine A hears every remote input on
    // time; engine B hears them in batches of three, two frames late. Once
    // all inputs are delivered, both engines hold the same world state.
    fn remote_axis(t: u32) -> f32 {
        match t % 3 {
            0 => 0.0,
            1 => 1.0,
            _ => -1.0,
        }
    }
    let mut a = PongGame::new(true);
    let mut b = PongGame::new(true);
    for t in 0..30u32 {
        let on_time = vec![PongInputState { frame: t, input: bits(remote_axis(t)) }];
        a.process(bits(0.5), &on_time);

        let batch: Vec<PongInputState> = if t % 3 == 2 {
            (t - 2..=t)
                .map(|f| PongInputState { frame: f, input: bits(remote_axis(f)) })
                .collect()
        } else {
            Vec::new()
        };
        b.process(bits(0.5), &batch);
    }
    assert_eq!(a.current_state(), b.current_state());
    assert_eq!(a.current_frame(), b.current_frame());
}

#[test]
fn inputs_survive_the_wire() {
    // an engine fed inputs that took a round trip through the codec behaves
    // exactly like one fed the originals
    let mut direct = PongGame::new(false);
    let mut decoded = PongGame::new(false);
    for t in 0..20u32 {
        let remote = PongInputState { frame: t, input: bits(0.25 * (t as f32 - 10.0)) };
        let wire = remote.into_u8();
        direct.process(bits(-0.5), &vec![remote]);
        decoded.process(bits(-0.5), &vec![PongInputState::from_u8(&wire)]);
    }
    assert_eq!(direct.current_state(), decoded.current_state());
}
