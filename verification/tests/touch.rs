use green_vita::touch::{Phase, Pointer, Route, TouchGate};

#[test]
fn mic_drag_never_leaks_to_game_even_outside_button() {
    let mut gate = TouchGate::default();
    let finger = Pointer::Finger(1);
    assert_eq!(gate.route(finger, Phase::Down, true), Route::Ui);
    assert_eq!(gate.route(finger, Phase::Move, false), Route::Ui);
    assert_eq!(gate.route(finger, Phase::Up, false), Route::Ui);
    assert_eq!(gate.route(finger, Phase::Down, false), Route::Game);
    assert_eq!(gate.route(finger, Phase::Move, true), Route::Game);
    assert_eq!(gate.route(finger, Phase::Up, true), Route::Game);
}

#[test]
fn second_finger_cannot_toggle_or_release_primary_mic_gesture() {
    let mut gate = TouchGate::default();
    let a = Pointer::Finger(1);
    let b = Pointer::Finger(2);
    assert_eq!(gate.route(a, Phase::Down, true), Route::Ui);
    assert_eq!(gate.route(b, Phase::Down, true), Route::Consumed);
    assert_eq!(gate.route(b, Phase::Up, true), Route::Consumed);
    assert_eq!(gate.route(a, Phase::Up, true), Route::Ui);
}

#[test]
fn mouse_and_fingers_are_tracked_separately() {
    let mut gate = TouchGate::new();
    assert_eq!(gate.route(Pointer::Mouse, Phase::Down, true), Route::Ui);
    assert_eq!(gate.route(Pointer::Finger(7), Phase::Down, false), Route::Game);
    assert_eq!(gate.route(Pointer::Finger(7), Phase::Down, true), Route::Consumed);
    assert_eq!(gate.route(Pointer::Mouse, Phase::Up, false), Route::Ui);
    // The secondary finger stays captured after the primary lifts.
    assert_eq!(gate.route(Pointer::Finger(7), Phase::Move, false), Route::Consumed);
    assert_eq!(gate.route(Pointer::Finger(7), Phase::Up, false), Route::Consumed);
    assert_eq!(gate.route(Pointer::Finger(7), Phase::Move, false), Route::Game);
}
