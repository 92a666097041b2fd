use pygamer_core::tilt::{Tilt, TiltState};

/// What the sampling loop does with a raw accelerometer reading before it
/// reaches the tracker: classify it against the deadzone.
fn classify(value: f32, deadzone: f32) -> Tilt {
    if value > deadzone {
        Tilt::Positive
    } else if value < -deadzone {
        Tilt::Negative
    } else {
        Tilt::Level
    }
}

#[test]
fn sustained_tilt_moves_on_the_third_sample() {
    // deadzone 2.0, friction 2: a reading of 3.0 counts as Positive, and the
    // accumulator reads 1, 2, 3 over three samples. Only on the third does
    // its magnitude exceed the friction, so the position moves then, from
    // the middle to 3, and not before.
    let deadzone: f32 = 2.0;
    let mut state = TiltState::new(2);
    let (pos1, hue1) = state.update(classify(3.0, deadzone));
    assert_eq!((pos1, hue1), (2, 1));
    let (pos2, hue2) = state.update(classify(3.0, deadzone));
    assert_eq!((pos2, hue2), (2, 2));
    let (pos3, hue3) = state.update(classify(3.0, deadzone));
    assert_eq!((pos3, hue3), (3, 3));
}

#[test]
fn a_move_resets_the_accumulator() {
    // After the move on the third sample the accumulator starts over: the
    // next move again takes three sustained samples.
    let deadzone: f32 = 2.0;
    let mut state = TiltState::new(2);
    for _ in 0..3 {
        state.update(classify(3.0, deadzone));
    }
    let (pos4, _) = state.update(classify(3.0, deadzone));
    assert_eq!(pos4, 3);
    let (pos5, _) = state.update(classify(3.0, deadzone));
    assert_eq!(pos5, 3);
    let (pos6, _) = state.update(classify(3.0, deadzone));
    assert_eq!(pos6, 4);
}

#[test]
fn position_never_climbs_past_the_last_pixel() {
    let deadzone: f32 = 2.0;
    let mut state = TiltState::new(2);
    for _ in 0..100 {
        let (pos, _) = state.update(classify(3.0, deadzone));
        assert!(pos <= 4);
    }
}

#[test]
fn position_never_drops_past_the_first_pixel() {
    let deadzone: f32 = 2.0;
    let mut state = TiltState::new(2);
    let mut lowest: usize = 2;
    for _ in 0..100 {
        let (pos, _) = state.update(classify(-3.0, deadzone));
        if pos < lowest {
            lowest = pos;
        }
    }
    assert_eq!(lowest, 0);
    let (pos, _) = state.update(classify(-3.0, deadzone));
    assert_eq!(pos, 0);
}

#[test]
fn readings_inside_the_deadzone_never_move_the_position() {
    let deadzone: f32 = 2.0;
    let mut state = TiltState::new(2);
    for value in [0.0f32, 1.9, -1.9, 0.5, -0.5, 2.0, -2.0] {
        for _ in 0..20 {
            let (pos, _) = state.update(classify(value, deadzone));
            assert_eq!(pos, 2);
        }
    }
}

#[test]
fn negative_tilt_moves_toward_zero() {
    let deadzone: f32 = 2.0;
    let mut state = TiltState::new(2);
    let mut last: usize = 2;
    for _ in 0..3 {
        let (pos, _) = state.update(classify(-5.0, deadzone));
        last = pos;
    }
    assert_eq!(last, 1);
}

#[test]
fn hue_wraps_after_256_updates() {
    // The hue advances once per update whatever the reading, so 256 updates
    // bring it back exactly to its starting value of zero.
    let deadzone: f32 = 2.0;
    let mut state = TiltState::new(2);
    let mut hue: u8 = 0;
    for i in 0..256 {
        let value: f32 = if i % 3 == 0 {
            3.0
        } else if i % 3 == 1 {
            -3.0
        } else {
            0.0
        };
        let (_, h) = state.update(classify(value, deadzone));
        hue = h;
    }
    assert_eq!(hue, 0);
}

#[test]
fn hue_advances_on_every_update() {
    let deadzone: f32 = 2.0;
    let mut state = TiltState::new(2);
    let (_, hue1) = state.update(classify(0.0, deadzone));
    let (_, hue2) = state.update(classify(3.0, deadzone));
    let (_, hue3) = state.update(classify(-3.0, deadzone));
    assert_eq!((hue1, hue2, hue3), (1, 2, 3));
}
