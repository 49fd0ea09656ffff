use playable_bosses::dracula::{
    CHANGE_DAMAGE, DEATH_DAMAGE, FINAL_DAMAGE, FOLLOW_CEILING, FOLLOW_FLOOR, FOLLOW_LEFT,
    FOLLOW_RIGHT, HOLD_FRAME, MINUS_STEP_GAIN, RIDE_HEIGHT, SPAWN_FRAME, STEP_GAIN,
};
use playable_bosses::marx::{
    CEILING, CUTTER_GAIN, DAMAGE_LIMIT, ENTRY_SPEED, FACE_LEFT, FACE_RIGHT, FLOOR, FLY_OUT_GAIN,
    FRAME_10, FRAME_14, FRAME_20, FRAME_22, FRAME_27, FRAME_34, FRAME_74, FREE_GAIN,
    GUARDED_DAMAGE, HIT_DAMAGE, LEFT_WALL, POWER, RIGHT_WALL, WALL_HEIGHT,
};
use playable_bosses::measure::{
    Measure, HIDDEN_SCALE, MINUS_ONE, MINUS_STICK_DEAD_ZONE, ONE, STICK_DEAD_ZONE, ZERO,
};

fn of(x: f32) -> Measure {
    Measure::from_bits(x.to_bits())
}

#[test]
fn constants_are_the_values_they_name() {
    let table: Vec<(u32, f32)> = vec![
        (ZERO, 0.0),
        (ONE, 1.0),
        (MINUS_ONE, -1.0),
        (HIDDEN_SCALE, 0.0001),
        (STICK_DEAD_ZONE, 0.001),
        (MINUS_STICK_DEAD_ZONE, -0.001),
        (CEILING, 150.0),
        (FLOOR, -100.0),
        (WALL_HEIGHT, 100.0),
        (RIGHT_WALL, 200.0),
        (LEFT_WALL, -200.0),
        (DAMAGE_LIMIT, 359.0),
        (ENTRY_SPEED, 5.0),
        (FACE_RIGHT, 90.0),
        (FACE_LEFT, -90.0),
        (HIT_DAMAGE, 4.1),
        (GUARDED_DAMAGE, 0.1),
        (POWER, 1.5),
        (FLY_OUT_GAIN, 1.75),
        (CUTTER_GAIN, 0.75),
        (FREE_GAIN, 2.2),
        (FRAME_10, 10.0),
        (FRAME_14, 14.0),
        (FRAME_20, 20.0),
        (FRAME_22, 22.0),
        (FRAME_27, 27.0),
        (FRAME_34, 34.0),
        (FRAME_74, 74.0),
        (FOLLOW_CEILING, 145.0),
        (FOLLOW_FLOOR, -100.0),
        (FOLLOW_RIGHT, 175.0),
        (FOLLOW_LEFT, -175.0),
        (RIDE_HEIGHT, 30.0),
        (SPAWN_FRAME, 29.0),
        (HOLD_FRAME, 30.0),
        (CHANGE_DAMAGE, 199.0),
        (DEATH_DAMAGE, 399.0),
        (playable_bosses::dracula::HIT_DAMAGE, 4.1),
        (FINAL_DAMAGE, 400.0),
        (STEP_GAIN, 2.0),
        (MINUS_STEP_GAIN, -2.0),
    ];
    for (bits, value) in table {
        assert_eq!(f32::from_bits(bits), value, "bits {:#x}", bits);
    }
}

#[test]
fn comparisons_agree_with_ieee() {
    let values: Vec<f32> = vec![
        0.0,
        -0.0,
        1.0,
        -1.0,
        0.001,
        -0.001,
        0.0001,
        150.0,
        149.99998,
        -100.0,
        -100.00001,
        f32::MIN_POSITIVE,
        -f32::MIN_POSITIVE,
        f32::from_bits(1),
        f32::MAX,
        f32::MIN,
        f32::INFINITY,
        f32::NEG_INFINITY,
        f32::NAN,
        -f32::NAN,
    ];
    for a in values.iter() {
        for b in values.iter() {
            let (ma, mb) = (of(*a), of(*b));
            assert_eq!(ma.ge(mb), *a >= *b, "{} >= {}", a, b);
            assert_eq!(ma.le(mb), *a <= *b, "{} <= {}", a, b);
            assert_eq!(ma.lt(mb), *a < *b, "{} < {}", a, b);
            assert_eq!(ma.eq_value(mb), *a == *b, "{} == {}", a, b);
        }
        assert_eq!(of(*a).nan(), a.is_nan());
    }
}

#[test]
fn zeros_are_equal_and_nan_is_not() {
    assert!(of(0.0).eq_value(of(-0.0)));
    assert!(!of(f32::NAN).eq_value(of(f32::NAN)));
    assert!(of(-3.5).lt(of(-2.0)));
    assert!(of(199.0).ge(Measure::from_bits(CHANGE_DAMAGE)));
    assert!(!of(198.99998).ge(Measure::from_bits(CHANGE_DAMAGE)));
}
