use game::round_timer::RoundTimer;
use game::time_span::TimeSpan;

#[test]
fn timer_counts_only_while_running() {
    let mut t = RoundTimer::new(TimeSpan::from_secs(20));
    t.tick_if_running(TimeSpan::from_secs(1), false);
    assert_eq!(t.elapsed(), TimeSpan::zero());
    t.tick_if_running(TimeSpan::from_secs(2), true);
    assert_eq!(t.elapsed(), TimeSpan::from_secs(2));
    t.tick_if_running(TimeSpan::from_secs(3), false);
    assert_eq!(t.elapsed(), TimeSpan::from_secs(2));
}

#[test]
fn timer_reports_up_at_or_past_limit() {
    let mut t = RoundTimer::new(TimeSpan::from_secs(20));
    assert!(!t.is_up());
    assert_eq!(t.remaining(), TimeSpan::from_secs(20));
    t.tick_if_running(TimeSpan::from_secs(20), true);
    assert!(t.is_up());
    assert_eq!(t.remaining(), TimeSpan::zero());
    t.tick_if_running(TimeSpan::from_secs(5), true);
    assert!(t.is_up());
    assert_eq!(t.elapsed(), TimeSpan::from_secs(20));
}

#[test]
fn reset_clears_elapsed() {
    let mut t = RoundTimer::new(TimeSpan::from_secs(20));
    t.tick_if_running(TimeSpan::from_secs(5), true);
    t.reset();
    assert_eq!(t.elapsed(), TimeSpan::zero());
    assert!(!t.is_up());
}

#[test]
fn time_span_saturates_at_the_largest_span() {
    let max = TimeSpan::new(u64::MAX, 999_999_999);
    assert_eq!(max.saturating_add(TimeSpan::from_millis(1)), max);
    assert_eq!(TimeSpan::from_secs(1).saturating_sub(TimeSpan::from_secs(2)), TimeSpan::zero());
    assert_eq!(TimeSpan::from_millis(1500).as_secs(), 1);
    assert_eq!(TimeSpan::from_millis(1500).subsec_nanos(), 500_000_000);
    assert_eq!(TimeSpan::new(1, 2_500_000_000).as_millis(), 3_500);
}
