use green_vita::video::decode_epoch::dequeue_access_unit;
use green_vita::video::policy::QueueReservation;
use green_vita::video::decode_epoch::{decode_action, decodes_queued_unit, invalidate, removed_picture, DecodeAction, DecodeOutcome};

#[test]
fn only_current_units_are_decoded() {
    assert!(decodes_queued_unit(4, 4, false));
    assert!(!decodes_queued_unit(3, 4, false));
    assert!(!decodes_queued_unit(4, 4, true));
}

#[test]
fn invalidation_moves_the_generation_and_asks_for_recovery() {
    assert_eq!(invalidate(4), (5, true));
    assert_eq!(invalidate(u64::MAX), (0, true));
    let (generation, recovery) = invalidate(7);
    assert!(!decodes_queued_unit(7, generation, false));
    assert!(recovery);
}

#[test]
fn old_pictures_are_drained_but_never_published() {
    let current = DecodeOutcome::Picture { epoch: Some(9) };
    assert_eq!(decode_action(9, 9, current), DecodeAction::Publish);
    assert_eq!(decode_action(8, 9, current), DecodeAction::StaleCall);
    assert_eq!(decode_action(9, 9, DecodeOutcome::Picture { epoch: Some(8) }), DecodeAction::OldEpoch);
    assert_eq!(decode_action(9, 9, DecodeOutcome::Picture { epoch: None }), DecodeAction::Unmatched);
    for action in [DecodeAction::Publish, DecodeAction::StaleCall, DecodeAction::OldEpoch, DecodeAction::Unmatched] {
        assert!(removed_picture(action));
    }
}

#[test]
fn failures_reset_and_empty_calls_do_nothing() {
    assert_eq!(decode_action(9, 9, DecodeOutcome::Failed), DecodeAction::Reset);
    assert_eq!(decode_action(9, 9, DecodeOutcome::NoPicture), DecodeAction::Nothing);
    assert!(!removed_picture(DecodeAction::Reset));
    assert!(!removed_picture(DecodeAction::Nothing));
}

#[test]
fn dequeued_units_give_their_bytes_back_even_when_stale() {
    let held = QueueReservation::acquire(1_000, 500).unwrap();
    assert_eq!(held.total, 1_500);
    assert_eq!(dequeue_access_unit(1_500, Some(held), 3, 4, false), (1_000, false));
    let held = QueueReservation::acquire(0, 700).unwrap();
    assert_eq!(dequeue_access_unit(700, Some(held), 4, 4, false), (0, true));
    assert_eq!(dequeue_access_unit(900, None, 4, 4, true), (900, false));
    assert_eq!(QueueReservation::acquire(700, 300).unwrap().release(1_000), 700);
}
