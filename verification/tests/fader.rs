use ql_bridge::fader::{to_position, to_value, VALUE_MIN, VALUE_THRESHOLD};

fn float_position(value: i64) -> u8 {
    if value <= -10000 {
        0
    } else {
        10.0_f64.powf((value as f64 + 10000.0) / 5500.0).round() as u8
    }
}

fn float_value(position: u8) -> i64 {
    if position <= 1 {
        -32768
    } else {
        ((position as f64).log10() * 5500.0 - 10000.0).round() as i64
    }
}

#[test]
fn position_is_zero_up_to_the_threshold() {
    assert_eq!(VALUE_THRESHOLD, -10000);
    for value in [-10000, -10001, -20000, -32768, i64::MIN] {
        assert_eq!(to_position(value), 0);
    }
    assert_eq!(to_position(-9999), 1);
}

#[test]
fn value_of_positions_zero_and_one_is_the_floor() {
    assert_eq!(VALUE_MIN, -32768);
    assert_eq!(to_value(0), -32768);
    assert_eq!(to_value(1), -32768);
}

#[test]
fn position_at_whole_powers_of_ten() {
    assert_eq!(to_position(-4500), 10);
    assert_eq!(to_position(1000), 100);
    assert_eq!(to_position(-2000), 28);
    assert_eq!(to_position(0), 66);
}

#[test]
fn value_at_whole_powers_of_ten() {
    assert_eq!(to_value(10), -4500);
    assert_eq!(to_value(100), 1000);
    assert_eq!(to_value(2), -8344);
    assert_eq!(to_value(255), 3236);
}

#[test]
fn position_stops_at_255() {
    assert_eq!(to_position(3231), 254);
    assert_eq!(to_position(3232), 255);
    assert_eq!(to_position(32767), 255);
    assert_eq!(to_position(i64::MAX), 255);
}

#[test]
fn position_agrees_with_the_rounded_power() {
    for value in -12000..=6000 {
        assert_eq!(to_position(value), float_position(value), "value {}", value);
    }
    for value in [i64::MIN, -32768, 32767, 100_000, 1_000_000] {
        assert_eq!(to_position(value), float_position(value), "value {}", value);
    }
}

#[test]
fn value_agrees_with_the_rounded_logarithm() {
    for position in 0..=255u8 {
        assert_eq!(to_value(position), float_value(position), "position {}", position);
    }
}

#[test]
fn position_of_value_is_the_position_again() {
    for position in 2..=255u8 {
        assert_eq!(to_position(to_value(position)), position);
    }
    assert_eq!(to_position(to_value(1)), 0);
    assert_eq!(to_position(to_value(0)), 0);
}

#[test]
fn position_never_falls_as_the_value_rises() {
    let mut last = 0;
    for value in -11000..=4000 {
        let position = to_position(value);
        assert!(position >= last);
        last = position;
    }
    assert_eq!(last, 255);
}

#[test]
fn value_of_a_position_is_within_one_step_of_any_value_shown_there() {
    for value in -9999..=3231 {
        let position = to_position(value);
        if position >= 2 {
            let back = to_value(position);
            assert_eq!(to_position(back), position);
            assert!(to_value(position - 1) < value || position == 2);
            assert!(value < to_value(position + 1));
        }
    }
}
