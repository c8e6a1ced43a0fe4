use green_vita::overlay::{menu_items, refresh_help_key, Command};

#[test]
fn menu_puts_microphone_second_and_refresh_only_when_possible() {
    assert_eq!(
        menu_items(true),
        vec![
            Command::Resume,
            Command::ToggleMicrophone,
            Command::RefreshStream,
            Command::ToggleDiagnostics,
            Command::Settings,
            Command::ExitGame
        ]
    );
    assert_eq!(menu_items(false).len(), 5);
}

#[test]
fn toggles_show_their_state() {
    assert_eq!(
        Command::ToggleDiagnostics.shown_label_keys(true, true, false),
        ("paused-diagnostics", Some("paused-diagnostics-on"))
    );
    assert_eq!(Command::ToggleMicrophone.shown_label_keys(false, false, true), ("paused-mic-not-ready", None));
    assert_eq!(Command::ToggleMicrophone.shown_label_keys(false, true, true), ("paused-mic-on", None));
    assert_eq!(Command::ToggleMicrophone.shown_label_keys(false, true, false), ("paused-mic-off", None));
    assert_eq!(Command::Settings.shown_label_keys(true, true, true), ("menu-settings", None));
    assert_eq!(refresh_help_key(true), "paused-home-refresh-help");
    assert_eq!(refresh_help_key(false), "paused-cloud-refresh-help");
}
