use core::cmp::Ordering;
use time::duration::Duration;
use time::error::ConversionRange;
use time::unsigned::UnsignedDuration;

#[test]
fn try_from_std_duration() {
    assert_eq!(
        Duration::try_from_unsigned(UnsignedDuration::new(0, 0)),
        Ok(Duration::seconds(0))
    );
    assert_eq!(
        Duration::try_from_unsigned(UnsignedDuration::new(1, 0)),
        Ok(Duration::seconds(1))
    );
}

#[test]
fn try_to_std_duration() {
    assert_eq!(
        UnsignedDuration::try_from_duration(Duration::seconds(0)),
        Ok(UnsignedDuration::new(0, 0))
    );
    assert_eq!(
        UnsignedDuration::try_from_duration(Duration::seconds(1)),
        Ok(UnsignedDuration::new(1, 0))
    );
    assert!(UnsignedDuration::try_from_duration(Duration::seconds(-1)).is_err());
}

#[test]
fn add_std() {
    assert_eq!(
        Duration::seconds(1).add_unsigned(UnsignedDuration::new(1, 0)),
        Duration::seconds(2)
    );
    assert_eq!(
        Duration::milliseconds(500).add_unsigned(UnsignedDuration::new(0, 500_000_000)),
        Duration::seconds(1)
    );
    assert_eq!(
        Duration::seconds(-1).add_unsigned(UnsignedDuration::new(1, 0)),
        Duration::seconds(0)
    );
}

#[test]
fn std_add() {
    assert_eq!(
        UnsignedDuration::new(1, 0).add_signed(Duration::seconds(1)),
        Duration::seconds(2)
    );
    assert_eq!(
        UnsignedDuration::new(0, 500_000_000).add_signed(Duration::milliseconds(500)),
        Duration::seconds(1)
    );
    assert_eq!(
        UnsignedDuration::new(1, 0).add_signed(Duration::seconds(-1)),
        Duration::seconds(0)
    );
}

#[test]
fn add_assign_std() {
    let mut duration = Duration::seconds(1);
    duration.add_assign_unsigned(UnsignedDuration::new(1, 0));
    assert_eq!(duration, Duration::seconds(2));

    let mut duration = Duration::milliseconds(500);
    duration.add_assign_unsigned(UnsignedDuration::new(0, 500_000_000));
    assert_eq!(duration, Duration::seconds(1));

    let mut duration = Duration::seconds(-1);
    duration.add_assign_unsigned(UnsignedDuration::new(1, 0));
    assert_eq!(duration, Duration::seconds(0));
}

#[test]
fn sub_std() {
    assert_eq!(
        Duration::seconds(1).sub_unsigned(UnsignedDuration::new(1, 0)),
        Duration::seconds(0)
    );
    assert_eq!(
        Duration::milliseconds(1_500).sub_unsigned(UnsignedDuration::new(0, 500_000_000)),
        Duration::seconds(1)
    );
    assert_eq!(
        Duration::seconds(-1).sub_unsigned(UnsignedDuration::new(1, 0)),
        Duration::seconds(-2)
    );
}

#[test]
fn std_sub() {
    assert_eq!(
        UnsignedDuration::new(1, 0).sub_signed(Duration::seconds(1)),
        Duration::seconds(0)
    );
    assert_eq!(
        UnsignedDuration::new(1, 500_000_000).sub_signed(Duration::milliseconds(500)),
        Duration::seconds(1)
    );
    assert_eq!(
        UnsignedDuration::new(1, 0).sub_signed(Duration::seconds(-1)),
        Duration::seconds(2)
    );
}

#[test]
fn sub_assign_std() {
    let mut duration = Duration::seconds(1);
    duration.sub_assign_unsigned(UnsignedDuration::new(1, 0));
    assert_eq!(duration, Duration::seconds(0));

    let mut duration = Duration::milliseconds(1_500);
    duration.sub_assign_unsigned(UnsignedDuration::new(0, 500_000_000));
    assert_eq!(duration, Duration::seconds(1));

    let mut duration = Duration::seconds(-1);
    duration.sub_assign_unsigned(UnsignedDuration::new(1, 0));
    assert_eq!(duration, Duration::seconds(-2));
}

#[test]
fn std_sub_assign() {
    let duration = UnsignedDuration::try_from_duration(
        UnsignedDuration::new(1, 0).sub_signed(Duration::seconds(1)),
    )
    .unwrap();
    assert!(Duration::seconds(0).eq_unsigned(&duration));

    let duration = UnsignedDuration::try_from_duration(
        UnsignedDuration::new(1, 500_000_000).sub_signed(Duration::milliseconds(500)),
    )
    .unwrap();
    assert!(Duration::seconds(1).eq_unsigned(&duration));
}

#[test]
fn std_sub_assign_out_of_range() {
    // The in-place form of this subtraction aborts on a negative result; the
    // conversion it forces the result through reports the range error.
    let negative = UnsignedDuration::new(1, 0).sub_signed(Duration::seconds(2));
    assert_eq!(
        UnsignedDuration::try_from_duration(negative),
        Err(ConversionRange)
    );
}

#[test]
fn partial_eq_std() {
    assert!(Duration::seconds(1).eq_unsigned(&UnsignedDuration::new(1, 0)));
    assert!(Duration::seconds(0).eq_unsigned(&UnsignedDuration::new(0, 0)));
    assert!(!Duration::seconds(-1).eq_unsigned(&UnsignedDuration::new(1, 0)));
    assert!(!Duration::minutes(-1).eq_unsigned(&UnsignedDuration::new(60, 0)));
    assert!(!Duration::seconds(40).eq_unsigned(&UnsignedDuration::new(60, 0)));
}

#[test]
fn std_partial_eq() {
    assert!(Duration::seconds(1).eq_unsigned(&UnsignedDuration::new(1, 0)));
    assert!(Duration::seconds(0).eq_unsigned(&UnsignedDuration::new(0, 0)));
    assert!(!Duration::seconds(-1).eq_unsigned(&UnsignedDuration::new(1, 0)));
    assert!(!Duration::minutes(-1).eq_unsigned(&UnsignedDuration::new(60, 0)));
    assert!(!Duration::minutes(1).eq_unsigned(&UnsignedDuration::new(40, 0)));
}

#[test]
fn partial_ord_std() {
    assert_eq!(Duration::seconds(0).cmp_unsigned(&UnsignedDuration::new(0, 0)), Ordering::Equal);
    assert_eq!(Duration::seconds(1).cmp_unsigned(&UnsignedDuration::new(0, 0)), Ordering::Greater);
    assert_eq!(Duration::seconds(-1).cmp_unsigned(&UnsignedDuration::new(1, 0)), Ordering::Less);
    assert_eq!(Duration::seconds(0).cmp_unsigned(&UnsignedDuration::new(1, 0)), Ordering::Less);
    assert_eq!(Duration::seconds(-1).cmp_unsigned(&UnsignedDuration::new(0, 0)), Ordering::Less);
    assert_eq!(Duration::minutes(1).cmp_unsigned(&UnsignedDuration::new(1, 0)), Ordering::Greater);
}

#[test]
fn std_partial_ord() {
    assert_eq!(Duration::seconds(0).cmp_unsigned(&UnsignedDuration::new(0, 0)), Ordering::Equal);
    assert_eq!(Duration::seconds(0).cmp_unsigned(&UnsignedDuration::new(1, 0)), Ordering::Less);
    assert_eq!(Duration::seconds(-1).cmp_unsigned(&UnsignedDuration::new(1, 0)), Ordering::Less);
    assert_eq!(Duration::seconds(-1).cmp_unsigned(&UnsignedDuration::new(0, 0)), Ordering::Less);
    assert_eq!(Duration::seconds(1).cmp_unsigned(&UnsignedDuration::new(0, 0)), Ordering::Greater);
    assert_eq!(Duration::seconds(1).cmp_unsigned(&UnsignedDuration::new(60, 0)), Ordering::Less);
}

#[test]
fn saturating() {
    assert_eq!(
        UnsignedDuration::new(u64::MAX, 999_999_999).sub_signed(Duration::min_value()),
        Duration::max_value()
    );
    assert_eq!(
        UnsignedDuration::new(u64::MAX, 999_999_999).add_signed(Duration::max_value()),
        Duration::max_value()
    );
    assert_eq!(
        Duration::max_value().add_unsigned(UnsignedDuration::new(u64::MAX, 999_999_999)),
        Duration::max_value()
    );
    assert_eq!(
        Duration::min_value().sub_unsigned(UnsignedDuration::new(u64::MAX, 999_999_999)),
        Duration::min_value()
    );
}

#[test]
fn unsigned_new_folds_nanoseconds() {
    let folded = UnsignedDuration::new(1, 2_000_000_000);
    assert_eq!(folded, UnsignedDuration::new(3, 0));
    assert_eq!(folded.as_secs(), 3);
    assert_eq!(folded.subsec_nanos(), 0);
}

#[test]
fn unsigned_round_trip() {
    let values = [
        Duration::seconds(0),
        Duration::new(5, 500_000_000),
        Duration::nanoseconds(1),
        Duration::max_value(),
    ];
    for d in values {
        let u = UnsignedDuration::try_from_duration(d).unwrap();
        assert_eq!(Duration::try_from_unsigned(u), Ok(d));
    }
}

#[test]
fn conversion_range_on_negative() {
    assert_eq!(
        UnsignedDuration::try_from_duration(Duration::seconds(-1)),
        Err(ConversionRange)
    );
    assert_eq!(
        UnsignedDuration::try_from_duration(Duration::nanoseconds(-1)),
        Err(ConversionRange)
    );
}

#[test]
fn conversion_range_on_oversized_unsigned() {
    assert_eq!(
        Duration::try_from_unsigned(UnsignedDuration::new(u64::MAX, 0)),
        Err(ConversionRange)
    );
    assert_eq!(
        Duration::try_from_unsigned(UnsignedDuration::new(i64::MAX as u64, 999_999_999)),
        Ok(Duration::max_value())
    );
    assert_eq!(
        Duration::try_from_unsigned(UnsignedDuration::new(i64::MAX as u64 + 1, 0)),
        Err(ConversionRange)
    );
}

#[test]
fn cmp_unsigned_oversized_is_greater() {
    assert_eq!(
        Duration::max_value().cmp_unsigned(&UnsignedDuration::new(u64::MAX, 0)),
        Ordering::Less
    );
    assert!(!Duration::max_value().eq_unsigned(&UnsignedDuration::new(u64::MAX, 0)));
}
