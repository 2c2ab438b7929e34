//! Adaptive bitrate.

use aicam::abr::{AbrConfig, AbrController};

/// An observation of a queue that is filled to a fraction of its capacity.
fn observe(c: &mut AbrController, ratio: f64) -> Option<u32> {
    c.tick((ratio * 1e6).round() as i64, 1_000_000)
}


fn fresh(ceiling: u32) -> AbrController {
    AbrController::new(AbrConfig::from_ceiling(ceiling))
}

#[test]
fn starts_at_ceiling() {
    let c = fresh(8000);
    assert_eq!(c.current_kbps(), 8000);
}

#[test]
fn mid_level_does_not_change_bitrate() {
    let mut c = fresh(8000);
    for _ in 0..30 {
        assert_eq!(observe(&mut c, 0.5), None);
    }
    assert_eq!(c.current_kbps(), 8000);
}

#[test]
fn high_for_three_ticks_steps_down() {
    let mut c = fresh(8000);
    assert_eq!(observe(&mut c, 0.9), None);
    assert_eq!(observe(&mut c, 0.9), None);
    let new = observe(&mut c, 0.9).expect("third high tick should downstep");
    assert_eq!(new, 6400); // 8000 * 0.8
    assert_eq!(c.current_kbps(), 6400);
}

#[test]
fn high_runs_step_down_repeatedly_until_floor() {
    let mut c = fresh(8000);
    let mut history = vec![c.current_kbps()];
    for _ in 0..50 {
        for _ in 0..3 {
            let _ = observe(&mut c, 0.95);
        }
        history.push(c.current_kbps());
    }
    assert_eq!(c.current_kbps(), 500);
    assert_eq!(history[1], 6400);
}

#[test]
fn low_for_ten_ticks_steps_up_from_reduced_bitrate() {
    let mut c = fresh(8000);
    for _ in 0..3 {
        let _ = observe(&mut c, 0.95);
    }
    assert_eq!(c.current_kbps(), 6400);

    for _ in 0..9 {
        assert_eq!(observe(&mut c, 0.05), None);
    }
    let new = observe(&mut c, 0.05).expect("tenth low tick should upstep");
    assert_eq!(new, 7040); // 6400 * 1.10
}

#[test]
fn upstep_does_not_exceed_ceiling() {
    let mut c = fresh(8000);
    for _ in 0..3 {
        let _ = observe(&mut c, 0.95);
    }
    for _ in 0..200 {
        let _ = observe(&mut c, 0.05);
    }
    assert_eq!(c.current_kbps(), 8000);
}

#[test]
fn downstep_does_not_go_below_floor() {
    let mut c = fresh(8000);
    for _ in 0..200 {
        let _ = observe(&mut c, 0.95);
    }
    assert_eq!(c.current_kbps(), 500);
}

#[test]
fn alternating_extremes_keep_counters_zeroed() {
    let mut c = fresh(8000);
    for _ in 0..100 {
        let _ = observe(&mut c, 0.9);
        let _ = observe(&mut c, 0.05);
    }
    assert_eq!(c.current_kbps(), 8000);
}

#[test]
fn mid_band_resets_counters_too() {
    let mut c = fresh(8000);
    let _ = observe(&mut c, 0.9);
    let _ = observe(&mut c, 0.9);
    let _ = observe(&mut c, 0.5);
    assert_eq!(observe(&mut c, 0.9), None); // counter was reset; this is tick 1 again
}

#[test]
fn ratio_is_clamped() {
    let mut c = fresh(8000);
    let _ = observe(&mut c, 2.0);
    let _ = observe(&mut c, 1.5);
    let _ = observe(&mut c, 2.0);
    assert_eq!(c.current_kbps(), 6400);
    let _ = observe(&mut c, -1.0);
}

#[test]
fn thresholds_belong_to_their_band() {
    let mut c = fresh(8000);
    assert_eq!(c.tick(75, 100), None);
    assert_eq!(c.tick(75, 100), None);
    assert_eq!(c.tick(75, 100), Some(6400));
    for _ in 0..9 {
        assert_eq!(c.tick(10, 100), None);
    }
    assert_eq!(c.tick(10, 100), Some(7040));
}

#[test]
fn just_inside_the_thresholds_nothing_moves() {
    let mut c = fresh(8000);
    for _ in 0..40 {
        assert_eq!(c.tick(749, 1000), None);
    }
    for _ in 0..40 {
        assert_eq!(c.tick(101, 1000), None);
    }
    assert_eq!(c.current_kbps(), 8000);
}

#[test]
fn bitrate_stays_between_floor_and_ceiling() {
    let mut c = fresh(2000);
    for step in 0..500i64 {
        let _ = c.tick((step * 37) % 101, 100);
        assert!(c.current_kbps() >= 500 && c.current_kbps() <= 2000);
    }
}

#[test]
fn steps_are_rounded_to_the_nearest() {
    let mut c = fresh(501);
    let _ = c.tick(90, 100);
    let _ = c.tick(90, 100);
    assert_eq!(c.tick(90, 100), Some(500));
    for _ in 0..9 {
        let _ = c.tick(0, 100);
    }
    assert_eq!(c.tick(0, 100), Some(501));
    let mut d = fresh(1232);
    let _ = d.tick(90, 100);
    let _ = d.tick(90, 100);
    assert_eq!(d.tick(90, 100), Some(986));
}

#[test]
fn a_low_ceiling_is_never_passed() {
    let mut c = fresh(300);
    for step in 0..60i64 {
        let before = c.current_kbps();
        assert_eq!(c.tick(if step < 30 { 95 } else { 0 }, 100), None);
        assert_eq!(c.current_kbps(), before);
    }
    assert_eq!(c.current_kbps(), 300);
}

#[test]
fn ticks_tell_exactly_the_changes() {
    let mut c = fresh(4000);
    for step in 0..400i64 {
        let before = c.current_kbps();
        let told = c.tick(if step % 80 < 30 { 95 } else { 5 }, 100);
        let now = c.current_kbps();
        assert_eq!(told, if now == before { None } else { Some(now) });
        assert!(now >= 500 && now <= 4000);
    }
}
