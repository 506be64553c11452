use clockeroo::engine::color_tier;
use clockeroo::engine::ColorTier;
use clockeroo::Session;

#[test]
fn countdown_remaining_counts_down_to_exactly_zero() {
    let s = Session::countdown(1000, 10);
    assert_eq!(s.remaining_millis(1000), 10_000);
    assert_eq!(s.remaining_millis(5000), 6_000);
    assert_eq!(s.remaining_millis(10_999), 1);
    assert_eq!(s.remaining_millis(11_000), 0);
    assert_eq!(s.remaining_millis(999_999), 0);

    let mut last = u64::MAX;
    for now in [1000u64, 2000, 5000, 10_999, 11_000, 20_000] {
        let r = s.remaining_millis(now);
        assert!(r <= last);
        last = r;
    }

    assert!(!s.is_triggered(10_999));
    assert!(s.is_triggered(11_000));
    assert!(s.is_triggered(50_000));
}

#[test]
fn stopwatch_elapsed_grows_from_baseline() {
    let s = Session::stopwatch(5_000);
    assert_eq!(s.elapsed_millis(5_000), 0);
    assert_eq!(s.elapsed_millis(5_001), 1);
    assert_eq!(s.elapsed_millis(65_000), 60_000);
    assert_eq!(s.elapsed_millis(4_000), 0);
    assert!(!s.is_triggered(u64::MAX));
}

#[test]
fn alarm_target_resolution() {
    // 01:00:00 now, alarm for 02:00:00: today, one hour ahead.
    let later_today = Session::alarm(0, 3_600, 7_200);
    assert_eq!(later_today.remaining_millis(0), 3_600_000);

    // 02:00:00 now, alarm for 01:00:00: tomorrow, 24 hours after today's
    // occurrence (which was an hour ago).
    let rolled = Session::alarm(0, 7_200, 3_600);
    assert_eq!(rolled.remaining_millis(0), 82_800_000);

    // The requested time equals now: tomorrow, exactly a day ahead.
    let full_day = Session::alarm(0, 3_600, 3_600);
    assert_eq!(full_day.remaining_millis(0), 86_400_000);

    // Never already triggered at construction.
    assert!(!later_today.is_triggered(0));
    assert!(!rolled.is_triggered(0));
    assert!(!full_day.is_triggered(0));
}

#[test]
fn color_tiers_by_remaining_time() {
    assert_eq!(color_tier(0), ColorTier::Red);
    assert_eq!(color_tier(9_999), ColorTier::Red);
    assert_eq!(color_tier(10_000), ColorTier::Yellow);
    assert_eq!(color_tier(59_999), ColorTier::Yellow);
    assert_eq!(color_tier(60_000), ColorTier::Green);
    assert_eq!(color_tier(3_600_000), ColorTier::Green);
}
