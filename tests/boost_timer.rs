use tactical_core::boost::{BOOST_ACTIVE_TICKS, BOOST_CYCLE_TICKS};
use tactical_core::{boost, BoostAction, BoostController};

#[test]
fn ready_timer_without_request_holds() {
    let mut t: Option<usize> = None;
    assert_eq!(boost(false, &mut t), BoostAction::Hold);
    assert_eq!(t, None);
}

#[test]
fn ready_timer_with_request_activates() {
    let mut t: Option<usize> = None;
    assert_eq!(boost(true, &mut t), BoostAction::Activate);
    assert_eq!(t, Some(0));
}

#[test]
fn running_timer_counts_and_deactivates() {
    let mut t = Some(5);
    assert_eq!(boost(true, &mut t), BoostAction::Hold);
    assert_eq!(t, Some(6));
    let mut t = Some(120);
    assert_eq!(boost(false, &mut t), BoostAction::Deactivate);
    assert_eq!(t, Some(121));
    let mut t = Some(600);
    assert_eq!(boost(false, &mut t), BoostAction::Deactivate);
    assert_eq!(t, Some(601));
    let mut t = Some(601);
    assert_eq!(boost(true, &mut t), BoostAction::Deactivate);
    assert_eq!(t, None);
}

#[test]
fn controller_full_cycle() {
    let mut c = BoostController::new();
    assert!(c.is_ready());
    assert!(!c.is_active());
    assert_eq!(c.update(true), BoostAction::Activate);
    let mut steps = 0usize;
    let mut first_deactivate = None;
    while !c.is_ready() {
        let active_before = c.is_active();
        let a = c.update(true);
        if a == BoostAction::Deactivate && first_deactivate.is_none() {
            first_deactivate = Some(steps);
            assert!(active_before);
        }
        steps += 1;
        if steps <= BOOST_ACTIVE_TICKS {
            assert!(c.is_active());
        } else {
            assert!(!c.is_active());
        }
    }
    assert_eq!(steps, BOOST_CYCLE_TICKS + 2);
    assert_eq!(first_deactivate, Some(BOOST_ACTIVE_TICKS));
    assert_eq!(c.update(true), BoostAction::Activate);
}
