use flywheel::time::{Duration, DurationExt, Instant};

#[test]
fn duration_constructors_agree() {
    assert_eq!(Duration::from_secs(2).as_millis(), 2000);
    assert_eq!(Duration::from_millis(1500).secs(), 1);
    assert_eq!(Duration::from_millis(1500).subsec_nanos(), 500_000_000);
    assert_eq!(Duration::from_nanos(1_000_000_001).secs(), 1);
    assert_eq!(Duration::from_nanos(1_000_000_001).subsec_nanos(), 1);
    assert_eq!(Duration::zero().as_millis(), 0);
}

#[test]
fn duration_new_carries_extra_nanos() {
    let d = Duration::new(1, 2_500_000_000);
    assert_eq!(d.secs(), 3);
    assert_eq!(d.subsec_nanos(), 500_000_000);
}

#[test]
fn duration_checked_add_and_sub() {
    let a = Duration::from_millis(1600);
    let b = Duration::from_millis(700);
    let sum = a.checked_add(b).unwrap();
    assert_eq!(sum.as_millis(), 2300);
    let diff = a.checked_sub(b).unwrap();
    assert_eq!(diff.as_millis(), 900);
    assert!(b.checked_sub(a).is_none());
    assert_eq!(b.saturating_sub(a).as_millis(), 0);
    let huge = Duration::from_secs(u64::MAX);
    assert!(huge.checked_add(Duration::from_secs(1)).is_none());
}

#[test]
fn tick_conversions() {
    assert_eq!(Duration::from_ticks(0).as_millis(), 0);
    assert_eq!(Duration::from_ticks(3).as_millis(), 150);
    assert_eq!(Duration::from_ticks(20).secs(), 1);
    assert_eq!(Duration::from_millis(149).as_ticks(), 2);
    assert_eq!(Duration::from_millis(150).as_ticks(), 3);
    assert_eq!(Duration::from_millis(1999).subsec_ticks(), 19);
    assert_eq!(Duration::from_millis(2049).subsec_ticks(), 0);
}

#[test]
fn instant_arithmetic() {
    let epoch = Instant::unix_epoch();
    let t1 = Instant::from_parts(10, 500_000_000);
    let t2 = Instant::from_parts(12, 250_000_000);
    assert_eq!(t2.duration_since(t1).as_millis(), 1750);
    assert_eq!(t1.duration_since(t2).as_millis(), 0);
    assert!(t1.checked_duration_since(t2).is_none());
    assert_eq!(t2.checked_duration_since(t1).unwrap().as_millis(), 1750);
    assert_eq!(t1.saturating_duration_since(t2).as_millis(), 0);
    assert_eq!(t1.elapsed(t2).as_millis(), 1750);
    assert_eq!(t1.duration_since(epoch).secs(), 10);

    let moved = t1.checked_add(Duration::from_millis(600)).unwrap();
    assert_eq!(moved.to_parts(), (11, 100_000_000));
    let back = moved.checked_sub(Duration::from_millis(600)).unwrap();
    assert_eq!(back.to_parts(), (10, 500_000_000));
    assert!(epoch.checked_sub(Duration::from_nanos(1)).is_none());
    let top = Instant::from_parts(u64::MAX, 999_999_999);
    assert!(top.checked_add(Duration::from_nanos(1)).is_none());
}

#[test]
fn instant_ordering() {
    let t1 = Instant::from_parts(5, 0);
    let t2 = Instant::from_parts(5, 1);
    assert!(t2.at_or_after(&t1));
    assert!(!t1.at_or_after(&t2));
    assert!(t1.at_or_after(&t1));
}

#[test]
fn instant_parts_normalize() {
    let t = Instant::from_parts(1, 1_999_999_999);
    assert_eq!(t.to_parts(), (2, 999_999_999));
}
