use flazky_bird_lib::delta::{DELTA_LIMIT_BITS, MAX_MILLIS};
use flazky_bird_lib::Delta;

fn millis(seconds: f32) -> Option<u32> {
    Delta::from_bits(seconds.to_bits()).map(|d| d.millis())
}

#[test]
fn delta_keeps_its_bits() {
    let bits = 0.03f32.to_bits();
    assert_eq!(bits, 0x3cf5_c28f);
    assert_eq!(Delta::from_bits(bits).unwrap().bits(), bits);
}

#[test]
fn delta_reads_whole_milliseconds() {
    assert_eq!(millis(0.0), Some(0));
    assert_eq!(millis(1.0), Some(1000));
    assert_eq!(millis(0.5), Some(500));
    assert_eq!(millis(4.0), Some(4000));
    assert_eq!(millis(10.0), Some(10_000));
    assert_eq!(millis(2.5), Some(2500));
}

#[test]
fn delta_rounds_to_the_nearest_millisecond() {
    assert_eq!(millis(0.03), Some(30));
    assert_eq!(millis(0.033), Some(33));
    assert_eq!(millis(1.4), Some(1400));
    assert_eq!(millis(0.0004), Some(0));
    assert_eq!(millis(0.0005), Some(1));
    assert_eq!(millis(0.0015), Some(2));
    assert_eq!(millis(0.0025), Some(2));
}

#[test]
fn delta_counts_tiny_steps_as_nothing() {
    assert_eq!(millis(f32::MIN_POSITIVE), Some(0));
    assert_eq!(millis(f32::from_bits(1)), Some(0));
    assert_eq!(millis(f32::from_bits(0x7f_ffff)), Some(0));
    assert_eq!(millis(1.0e-30), Some(0));
}

#[test]
fn delta_limit_is_4096_seconds() {
    assert_eq!(4096.0f32.to_bits(), DELTA_LIMIT_BITS);
    assert_eq!(millis(4096.0), None);
    assert_eq!(millis(f32::from_bits(DELTA_LIMIT_BITS - 1)), Some(MAX_MILLIS));
    assert_eq!(MAX_MILLIS, 4_096_000);
    assert_eq!(millis(4095.0), Some(4_095_000));
}

#[test]
fn delta_refuses_what_is_no_time_step() {
    assert_eq!(millis(-0.03), None);
    assert_eq!(millis(-0.0), None);
    assert_eq!(millis(f32::INFINITY), None);
    assert_eq!(millis(f32::NEG_INFINITY), None);
    assert_eq!(millis(f32::NAN), None);
    assert_eq!(millis(f32::MAX), None);
    assert!(Delta::from_bits(u32::MAX).is_none());
}

#[test]
fn delta_agrees_with_floating_point_rounding() {
    let mut bits: u32 = 0;
    while bits < DELTA_LIMIT_BITS {
        let seconds = f64::from(f32::from_bits(bits));
        let expected = (seconds * 1000.0 + 0.5).floor() as u32;
        assert_eq!(Delta::from_bits(bits).unwrap().millis(), expected, "bits {bits:#x}");
        bits += 65_521;
    }
}
