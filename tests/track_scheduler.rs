use tactical_core::{FrigateRadarMode, RadarTask, TrackEvent, TrackScheduler};

#[test]
fn searches_until_quota_then_tracks() {
    let mut s = TrackScheduler::new();
    assert_eq!(s.mode, FrigateRadarMode::FindNewTargets);
    assert_eq!(s.after_search(4), RadarTask::Search);
    assert_eq!(s.mode, FrigateRadarMode::FindNewTargets);
    assert_eq!(s.after_search(5), RadarTask::Track(0));
    assert_eq!(s.mode, FrigateRadarMode::UpdateTargets);
    assert!(s.found_all_targets);
}

#[test]
fn observed_targets_are_revisited_in_turn() {
    let mut s = TrackScheduler::new();
    s.after_search(5);
    assert_eq!(s.after_track(TrackEvent::Observed, 5), RadarTask::Track(1));
    assert_eq!(s.after_track(TrackEvent::Observed, 5), RadarTask::Track(2));
    s.index = 4;
    assert_eq!(s.after_track(TrackEvent::Observed, 5), RadarTask::Track(0));
}

#[test]
fn lost_target_hands_its_slot_to_the_next() {
    let mut s = TrackScheduler::new();
    s.after_search(5);
    s.index = 2;
    assert_eq!(s.after_track(TrackEvent::Lost, 4), RadarTask::Track(2));
    s.index = 3;
    assert_eq!(s.after_track(TrackEvent::Lost, 3), RadarTask::Track(0));
}

#[test]
fn losing_the_last_target_returns_to_search() {
    let mut s = TrackScheduler::new();
    s.after_search(5);
    assert_eq!(s.after_track(TrackEvent::Lost, 0), RadarTask::Search);
    assert_eq!(s.mode, FrigateRadarMode::FindNewTargets);
    assert!(!s.found_all_targets);
}

#[test]
fn ordnance_moves_on_or_back_to_search() {
    let mut s = TrackScheduler::new();
    s.after_search(5);
    assert_eq!(s.after_track(TrackEvent::Ordnance, 5), RadarTask::Track(1));
    s.index = 4;
    assert_eq!(s.after_track(TrackEvent::Ordnance, 5), RadarTask::Search);
    assert_eq!(s.mode, FrigateRadarMode::FindNewTargets);
    assert!(s.found_all_targets);
    assert_eq!(s.after_search(5), RadarTask::Track(0));
}
