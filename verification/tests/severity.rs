use therminal::{severity, Severity, Threshold};

fn at(millidegrees: i64) -> Option<Threshold> {
    Some(Threshold::from_millidegrees(millidegrees))
}

fn rank(s: Severity) -> u8 {
    match s {
        Severity::Normal => 0,
        Severity::Single => 1,
        Severity::Double => 2,
        Severity::Triple => 3,
    }
}

#[test]
fn no_threshold_gives_no_marker() {
    for temp in [0u64, 1, 40000, 1_000_000, u64::MAX] {
        assert_eq!(severity(None, temp), Severity::Normal);
    }
    assert_eq!(Severity::Normal.marker(), "");
}

#[test]
fn levels_change_exactly_at_the_three_bounds() {
    let t = at(40000);
    assert_eq!(severity(t, 0), Severity::Normal);
    assert_eq!(severity(t, 40000), Severity::Normal);
    assert_eq!(severity(t, 40001), Severity::Single);
    assert_eq!(severity(t, 48000), Severity::Single);
    assert_eq!(severity(t, 48001), Severity::Double);
    assert_eq!(severity(t, 60000), Severity::Double);
    assert_eq!(severity(t, 60001), Severity::Triple);
    assert_eq!(severity(t, u64::MAX), Severity::Triple);
}

#[test]
fn bounds_that_are_no_whole_numbers_are_exact() {
    let t = at(3);
    assert_eq!(severity(t, 3), Severity::Normal);
    assert_eq!(severity(t, 4), Severity::Double);
    assert_eq!(severity(t, 5), Severity::Triple);
    let t = at(7);
    assert_eq!(severity(t, 8), Severity::Single);
    assert_eq!(severity(t, 9), Severity::Double);
    assert_eq!(severity(t, 10), Severity::Double);
    assert_eq!(severity(t, 11), Severity::Triple);
}

#[test]
fn markers_grow_with_the_level() {
    assert_eq!(Severity::Normal.marker(), "");
    assert_eq!(Severity::Single.marker(), "!");
    assert_eq!(Severity::Double.marker(), "!!");
    assert_eq!(Severity::Triple.marker(), "!!!");
}

#[test]
fn warmer_is_never_lower() {
    for threshold in [None, at(-5), at(0), at(1), at(7), at(100), at(40000)] {
        let mut last = 0u8;
        for temp in 0u64..400 {
            let now = rank(severity(threshold, temp * 250));
            assert!(last <= now, "{:?} {}", threshold, temp);
            last = now;
        }
    }
}

#[test]
fn every_level_is_passed_on_the_way_up() {
    let mut seen = Vec::new();
    for temp in 0u64..100 {
        let s = severity(at(50), temp);
        if seen.last() != Some(&s) {
            seen.push(s);
        }
    }
    assert_eq!(seen, vec![Severity::Normal, Severity::Single, Severity::Double, Severity::Triple]);
}

#[test]
fn threshold_of_zero_or_below_marks_what_lies_above_it() {
    assert_eq!(severity(at(0), 0), Severity::Normal);
    assert_eq!(severity(at(0), 1), Severity::Triple);
    assert_eq!(severity(at(-1), 0), Severity::Triple);
    assert_eq!(severity(at(i64::MIN), 0), Severity::Triple);
}

#[test]
fn largest_values_do_not_overflow() {
    assert_eq!(severity(at(i64::MAX), u64::MAX), Severity::Triple);
    assert_eq!(severity(at(i64::MAX), i64::MAX as u64 + 1), Severity::Single);
    assert_eq!(severity(at(i64::MAX), 0), Severity::Normal);
}

#[test]
fn whole_millidegrees_are_six_sixths_each() {
    assert_eq!(Threshold::from_millidegrees(40000), Threshold::from_sixths(240000));
    assert_eq!(Threshold::from_millidegrees(-1).sixths, -6);
    assert_eq!(Threshold::from_millidegrees(i64::MAX).sixths, 6 * (i64::MAX as i128));
    assert_eq!(Threshold::from_millidegrees(i64::MIN).sixths, 6 * (i64::MIN as i128));
    assert_eq!(Threshold::from_sixths(7).sixths, 7);
}

#[test]
fn threshold_between_two_millidegrees_is_not_rounded() {
    let t = Some(Threshold::from_sixths(240003));
    assert_eq!(severity(t, 40000), Severity::Normal);
    assert_eq!(severity(t, 40001), Severity::Single);
    assert_eq!(severity(t, 48000), Severity::Single);
    assert_eq!(severity(t, 48001), Severity::Double);
    assert_eq!(severity(t, 60000), Severity::Double);
    assert_eq!(severity(t, 60001), Severity::Triple);
    let t = Some(Threshold::from_sixths(240005));
    assert_eq!(severity(t, 40000), Severity::Normal);
    assert_eq!(severity(t, 40001), Severity::Single);
    assert_eq!(severity(t, 48001), Severity::Single);
    assert_eq!(severity(t, 48002), Severity::Double);
    assert_eq!(severity(t, 60001), Severity::Double);
    assert_eq!(severity(t, 60002), Severity::Triple);
}

#[test]
fn thresholds_beyond_every_reading_do_not_overflow() {
    let never = Some(Threshold::from_sixths(i128::MAX));
    assert_eq!(severity(never, u64::MAX), Severity::Normal);
    let always = Some(Threshold::from_sixths(i128::MIN));
    assert_eq!(severity(always, 0), Severity::Triple);
}
