use gpuix::ids::{to_element_id, MAX_ELEMENT_ID};

fn id(x: f64) -> Option<u64> {
    to_element_id(x.to_bits())
}

#[test]
fn whole_numbers_are_ids() {
    assert_eq!(id(0.0), Some(0));
    assert_eq!(id(1.0), Some(1));
    assert_eq!(id(2.0), Some(2));
    assert_eq!(id(3.0), Some(3));
    assert_eq!(id(7.0), Some(7));
    assert_eq!(id(1024.0), Some(1024));
    assert_eq!(id(123456789.0), Some(123456789));
    assert_eq!(id(4503599627370496.0), Some(4503599627370496));
    assert_eq!(id(4503599627370497.0), Some(4503599627370497));
}

#[test]
fn the_largest_id_is_two_to_the_53_less_one() {
    assert_eq!(MAX_ELEMENT_ID, (1u64 << 53) - 1);
    assert_eq!(id(9007199254740991.0), Some(MAX_ELEMENT_ID));
    assert_eq!(id(9007199254740992.0), None);
    assert_eq!(id(9007199254740993.0), None);
    assert_eq!(id(1e300), None);
}

#[test]
fn negative_zero_is_zero() {
    assert_eq!(id(-0.0), Some(0));
}

#[test]
fn negative_numbers_are_rejected() {
    assert_eq!(id(-1.0), None);
    assert_eq!(id(-0.5), None);
    assert_eq!(id(-9007199254740991.0), None);
}

#[test]
fn fractions_are_rejected() {
    assert_eq!(id(1.5), None);
    assert_eq!(id(0.5), None);
    assert_eq!(id(0.1), None);
    assert_eq!(id(2.000000001), None);
    assert_eq!(id(4503599627370495.5), None);
    assert_eq!(id(f64::MIN_POSITIVE), None);
    assert_eq!(id(5e-324), None);
}

#[test]
fn not_a_number_and_infinity_are_rejected() {
    assert_eq!(id(f64::NAN), None);
    assert_eq!(id(f64::INFINITY), None);
    assert_eq!(id(f64::NEG_INFINITY), None);
}

#[test]
fn every_small_whole_number_round_trips() {
    for n in 0..5000u64 {
        assert_eq!(id(n as f64), Some(n));
        assert_eq!(id(n as f64 + 0.25), None);
    }
    for shift in 0..53u32 {
        let n = 1u64 << shift;
        assert_eq!(id(n as f64), Some(n));
        if n > 1 {
            assert_eq!(id((n - 1) as f64), Some(n - 1));
        }
    }
}
