use green_vita::rtc::latest_input::LatestInput;

#[test]
fn backpressure_retains_release_and_newer_input_replaces_unsent_press() {
    let mut pending = LatestInput::new();
    pending.replace("press");
    pending.try_send(|_| false);
    pending.replace("release");
    for _ in 0..100 {
        pending.try_send(|state| {
            assert_eq!(*state, "release");
            false
        });
    }
    let mut sent = Vec::new();
    pending.try_send(|state| {
        sent.push(*state);
        true
    });
    pending.try_send(|_| panic!("accepted state must not be replayed"));
    assert_eq!(sent, ["release"]);
}
