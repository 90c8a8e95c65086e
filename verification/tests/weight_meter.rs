use coretime_sched::weight::{Weight, WeightMeter};

#[test]
fn meter_consumes_what_fits() {
    let mut meter = WeightMeter::with_limit(Weight::from_parts(10, 4));
    assert_eq!(meter.remaining(), Weight::from_parts(10, 4));
    assert!(meter.consume(Weight::from_parts(6, 1)));
    assert_eq!(meter.remaining(), Weight::from_parts(4, 3));
    assert_eq!(meter.consumed(), Weight::from_parts(6, 1));
}

#[test]
fn meter_is_untouched_by_what_does_not_fit() {
    let mut meter = WeightMeter::with_limit(Weight::from_parts(10, 4));
    assert!(meter.consume(Weight::from_parts(6, 1)));
    let before = meter;
    assert!(!meter.consume(Weight::from_parts(5, 0)));
    assert_eq!(meter, before);
    assert!(!meter.consume(Weight::from_parts(0, 4)));
    assert_eq!(meter, before);
    assert!(meter.consume(Weight::from_parts(4, 3)));
    assert_eq!(meter.remaining(), Weight::zero());
}

#[test]
fn overdrawn_meter_has_nothing_left() {
    let mut meter = WeightMeter::with_limit(Weight::from_parts(10, 4));
    meter.overdraw(Weight::from_parts(25, 1));
    assert_eq!(meter.consumed(), Weight::from_parts(25, 1));
    assert_eq!(meter.remaining(), Weight::from_parts(0, 3));
    assert!(!meter.consume(Weight::from_parts(1, 0)));
    assert!(meter.consume(Weight::from_parts(0, 3)));
}

#[test]
fn weights_saturate() {
    let big = Weight::from_parts(u64::MAX, 7);
    assert_eq!(big.saturating_add(Weight::from_parts(1, 1)), Weight::from_parts(u64::MAX, 8));
    assert_eq!(Weight::from_parts(3, 3).saturating_sub(Weight::from_parts(5, 1)), Weight::from_parts(0, 2));
}
