use green_vita::gestures::{back_button_step, direction_step, BackAction, BackHold, DirectionRepeat};

const MS: u64 = 1_000;

#[test]
fn short_back_press_becomes_one_view_tap() {
    let s = BackHold { held_since: None };
    let (s, action) = back_button_step(s, true, true, 1_000 * MS);
    assert_eq!((s.held_since, action), (Some(1_000 * MS), None));
    let (s, action) = back_button_step(s, true, true, 1_200 * MS);
    assert_eq!(action, None);
    let (s, action) = back_button_step(s, true, false, 1_300 * MS);
    assert_eq!((s.held_since, action), (None, Some(BackAction::RelayView)));
    assert_eq!(back_button_step(s, true, false, 1_400 * MS).1, None);
}

#[test]
fn long_back_hold_opens_pause_and_sends_nothing_to_the_game() {
    let (s, _) = back_button_step(BackHold { held_since: None }, true, true, 0);
    let (s, action) = back_button_step(s, true, true, 1_499 * MS);
    assert_eq!(action, None);
    let (s, action) = back_button_step(s, true, true, 1_500 * MS);
    assert_eq!((s.held_since, action), (None, Some(BackAction::OpenPause)));
    // Still held after the overlay opened: the gesture starts over, and outside a
    // playing stream it is forgotten.
    let (s, _) = back_button_step(s, true, true, 1_600 * MS);
    assert_eq!(back_button_step(s, false, false, 1_700 * MS), (BackHold { held_since: None }, None));
}

#[test]
fn held_direction_acts_then_repeats_after_the_delay() {
    let s = DirectionRepeat { held: None, since: 0, last_repeat: 0 };
    let (s, act) = direction_step(s, Some(1), 1_000 * MS);
    assert!(act);
    let (s, act) = direction_step(s, Some(1), 1_349 * MS);
    assert!(!act);
    let (s, act) = direction_step(s, Some(1), 1_350 * MS);
    assert!(act);
    let (s, act) = direction_step(s, Some(1), 1_439 * MS);
    assert!(!act);
    let (s, act) = direction_step(s, Some(1), 1_440 * MS);
    assert!(act);
    let (s, act) = direction_step(s, Some(2), 1_450 * MS);
    assert!(act);
    let (s, act) = direction_step(s, None, 1_460 * MS);
    assert!(!act && s.held.is_none());
}
