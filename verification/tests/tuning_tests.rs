use game::gpu_renderer::BufferMode;
use game::headful::run_tuning::{bottomwell_run_mods_from_skill_mods, gravity_interval_from_percent, run_tuning_from_mods};
use game::perf_budget::{summarize_statuses, PerfBudgetHealth, PerfBudgetStatus};
use game::round_timer::RoundTimer;
use game::skilltree::SkillTreeRunMods;
use game::time_span::TimeSpan;

#[test]
fn gravity_gets_faster_by_percent_with_a_floor() {
    let base = TimeSpan::from_millis(500);
    assert_eq!(gravity_interval_from_percent(base, 0).as_millis(), 500);
    assert_eq!(gravity_interval_from_percent(base, 10).as_millis(), 450);
    // at most 95 percent faster
    assert_eq!(gravity_interval_from_percent(base, 99).as_millis(), 25);
    // never under 25 ms
    assert_eq!(gravity_interval_from_percent(TimeSpan::from_millis(100), 90).as_millis(), 25);
    assert_eq!(gravity_interval_from_percent(TimeSpan::from_millis(1001), 50).as_millis(), 500);
}

#[test]
fn run_tuning_adds_round_time_and_keeps_bonus() {
    let mods = SkillTreeRunMods {
        extra_round_time_seconds: 7,
        gravity_faster_percent: 20,
        score_bonus_per_line: 3,
        deep_shaft_rows: 2,
        ore_weight_points: 1,
        ..SkillTreeRunMods::default()
    };
    let t = run_tuning_from_mods(TimeSpan::from_secs(20), TimeSpan::from_millis(500), mods);
    assert_eq!(t.round_limit.as_secs(), 27);
    assert_eq!(t.gravity_interval.as_millis(), 400);
    assert_eq!(t.score_bonus_per_line, 3);
    let bw = bottomwell_run_mods_from_skill_mods(mods);
    assert_eq!(bw.deep_shaft_rows, 2);
    assert_eq!(bw.ore_weight_points, 1);
    assert_eq!(bw.coin_weight_points, 0);
}

#[test]
fn timer_once_up_stays_up() {
    let mut timer = RoundTimer::new(TimeSpan::from_millis(100));
    timer.tick_if_running(TimeSpan::from_millis(150), true);
    assert!(timer.is_up());
    let elapsed = timer.elapsed();
    timer.tick_if_running(TimeSpan::from_millis(10), true);
    assert!(timer.is_up());
    assert_eq!(timer.elapsed(), elapsed);
}

#[test]
fn health_counters_stay_consistent() {
    let mut health = PerfBudgetHealth::default();
    for statuses in [
        vec![PerfBudgetStatus::Critical],
        vec![PerfBudgetStatus::Warn, PerfBudgetStatus::Normal],
        vec![PerfBudgetStatus::Critical, PerfBudgetStatus::Warn],
        vec![PerfBudgetStatus::Critical],
        vec![],
    ] {
        health.observe_summary(summarize_statuses(statuses));
        assert!(health.over_critical_frames <= health.over_warn_frames);
        assert!(health.over_warn_frames <= health.total_frames);
        assert!(health.consecutive_critical_frames <= health.max_consecutive_critical_frames);
    }
    assert_eq!(health.total_frames, 5);
    assert_eq!(health.over_warn_frames, 4);
    assert_eq!(health.over_critical_frames, 3);
    assert_eq!(health.max_consecutive_critical_frames, 2);
    assert_eq!(health.consecutive_critical_frames, 0);
}

#[test]
fn buffer_modes_differ() {
    assert_ne!(BufferMode::CpuMatchesSurface, BufferMode::GpuTiny);
}
