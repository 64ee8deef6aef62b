use tactical_core::radar::{FULL_TURN, INITIAL_HEADING, INITIAL_WIDTH, UNLIMITED_DISTANCE};
use tactical_core::{RadarAim, RadarState};

#[test]
fn fresh_scheduler_posture() {
    let r = RadarState::new();
    let aim = r.restore();
    assert_eq!(aim.heading, FULL_TURN / 4);
    assert_eq!(aim.width, FULL_TURN / 4);
    assert_eq!(aim.min_distance, 0);
    assert_eq!(aim.max_distance, UNLIMITED_DISTANCE);
}

#[test]
fn rotate_advances_by_one_width() {
    let mut r = RadarState::new();
    let aim = r.rotate();
    assert_eq!(aim.heading, INITIAL_HEADING + INITIAL_WIDTH);
    assert_eq!(aim.width, INITIAL_WIDTH);
    assert_eq!(aim.min_distance, 0);
}

#[test]
fn one_revolution_returns_heading_and_halves_width() {
    let mut r = RadarState::new();
    let start = r.restore();
    let mut last = start;
    for _ in 0..4 {
        last = r.rotate();
    }
    assert_eq!(last.heading, start.heading);
    assert_eq!(last.width * 2, start.width);
    // the second revolution takes eight steps and halves the width again
    for _ in 0..8 {
        last = r.rotate();
    }
    assert_eq!(last.heading, start.heading);
    assert_eq!(last.width * 4, start.width);
}

#[test]
fn heading_wraps_round_the_circle() {
    let mut r = RadarState::new();
    r.save(RadarAim { heading: FULL_TURN - 1, width: 5, min_distance: 0, max_distance: 10 });
    let aim = r.rotate();
    assert_eq!(aim.heading, INITIAL_WIDTH - 1);
}

#[test]
fn save_then_restore_keeps_sweep_width() {
    let mut r = RadarState::new();
    r.rotate();
    r.save(RadarAim { heading: FULL_TURN + 7, width: 99, min_distance: 300, max_distance: 900 });
    let aim = r.restore();
    assert_eq!(aim, RadarAim { heading: 7, width: INITIAL_WIDTH, min_distance: 300, max_distance: 900 });
}
