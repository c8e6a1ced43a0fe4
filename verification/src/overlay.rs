//! Commands of the paused-stream overlay and the menu they form.
use vstd::prelude::*;

verus! {

#[derive(Clone, Copy, PartialEq, Eq, Structural, Debug)]
pub enum Command {
    Resume,
    RefreshStream,
    ToggleDiagnostics,
    ToggleMicrophone,
    Settings,
    PressGuideButton,
    ExitGame,
}

/// The paused menu: the microphone toggle second, then (for streams that can be
/// refreshed) the refresh command, then the fixed items.
pub open spec fn menu(can_refresh: bool) -> Seq<Command> {
    if can_refresh {
        seq![Command::Resume, Command::ToggleMicrophone, Command::RefreshStream, Command::ToggleDiagnostics,
            Command::Settings, Command::ExitGame]
    } else {
        seq![Command::Resume, Command::ToggleMicrophone, Command::ToggleDiagnostics, Command::Settings,
            Command::ExitGame]
    }
}

/// Menu items for the current stream.
pub fn menu_items(can_refresh: bool) -> (items: Vec<Command>)
    ensures
        items@ == menu(can_refresh),
{
    let mut items = vec![Command::Resume, Command::ToggleDiagnostics, Command::Settings, Command::ExitGame];
    if can_refresh {
        items.insert(1, Command::RefreshStream);
    }
    items.insert(1, Command::ToggleMicrophone);
    assert(items@ =~= menu(can_refresh));
    items
}

pub open spec fn icon_text(command: Command) -> Seq<char> {
    match command {
        Command::Resume => "\u{25b6}"@,
        Command::RefreshStream => "\u{21bb}"@,
        Command::ToggleDiagnostics => "\u{2630}"@,
        Command::ToggleMicrophone => "M"@,
        Command::Settings => "\u{2699}"@,
        Command::PressGuideButton => "\u{2302}"@,
        Command::ExitGame => "\u{2715}"@,
    }
}

pub open spec fn label_key_text(command: Command) -> Seq<char> {
    match command {
        Command::Resume => "paused-resume"@,
        Command::RefreshStream => "paused-refresh-stream"@,
        Command::ToggleDiagnostics => "paused-diagnostics"@,
        Command::ToggleMicrophone => "paused-microphone"@,
        Command::Settings => "menu-settings"@,
        Command::PressGuideButton => "paused-xbox-button"@,
        Command::ExitGame => "paused-exit-game"@,
    }
}

impl Command {
    pub fn icon(self) -> (icon: &'static str)
        ensures
            icon@ == icon_text(self),
    {
        match self {
            Command::Resume => "\u{25b6}",
            Command::RefreshStream => "\u{21bb}",
            Command::ToggleDiagnostics => "\u{2630}",
            Command::ToggleMicrophone => "M",
            Command::Settings => "\u{2699}",
            Command::PressGuideButton => "\u{2302}",
            Command::ExitGame => "\u{2715}",
        }
    }

    /// Translation key of the command's label.
    pub fn label_key(self) -> (key: &'static str)
        ensures
            key@ == label_key_text(self),
    {
        match self {
            Command::Resume => "paused-resume",
            Command::RefreshStream => "paused-refresh-stream",
            Command::ToggleDiagnostics => "paused-diagnostics",
            Command::ToggleMicrophone => "paused-microphone",
            Command::Settings => "menu-settings",
            Command::PressGuideButton => "paused-xbox-button",
            Command::ExitGame => "paused-exit-game",
        }
    }
}

/// The translation keys an item shows on the overlay: the diagnostics toggle shows its
/// label and then its state; the microphone toggle shows only its state (not ready, on
/// or off); every other item its label.
pub open spec fn shown_keys(
    command: Command,
    diagnostics_on: bool,
    microphone_ready: bool,
    microphone_on: bool,
) -> (Seq<char>, Option<Seq<char>>) {
    match command {
        Command::ToggleDiagnostics => (
            label_key_text(command),
            Some(if diagnostics_on { "paused-diagnostics-on"@ } else { "paused-diagnostics-off"@ }),
        ),
        Command::ToggleMicrophone => (
            if !microphone_ready {
                "paused-mic-not-ready"@
            } else if microphone_on {
                "paused-mic-on"@
            } else {
                "paused-mic-off"@
            },
            None,
        ),
        _ => (label_key_text(command), None),
    }
}

/// The help line under the menu: how a home or a cloud stream is refreshed.
pub open spec fn refresh_help_text(home: bool) -> Seq<char> {
    if home { "paused-home-refresh-help"@ } else { "paused-cloud-refresh-help"@ }
}

impl Command {
    /// The keys to translate for this item, as `shown_keys` says; the second, when
    /// present, follows the first after a colon.
    pub fn shown_label_keys(self, diagnostics_on: bool, microphone_ready: bool, microphone_on: bool) -> (keys: (
        &'static str,
        Option<&'static str>,
    ))
        ensures
            (keys.0@, match keys.1 {
                Some(k) => Some(k@),
                None => None,
            }) == shown_keys(self, diagnostics_on, microphone_ready, microphone_on),
    {
        match self {
            Command::ToggleDiagnostics => (
                self.label_key(),
                Some(if diagnostics_on { "paused-diagnostics-on" } else { "paused-diagnostics-off" }),
            ),
            Command::ToggleMicrophone => (
                if !microphone_ready {
                    "paused-mic-not-ready"
                } else if microphone_on {
                    "paused-mic-on"
                } else {
                    "paused-mic-off"
                },
                None,
            ),
            _ => (self.label_key(), None),
        }
    }
}

pub fn refresh_help_key(home: bool) -> (key: &'static str)
    ensures
        key@ == refresh_help_text(home),
{
    if home { "paused-home-refresh-help" } else { "paused-cloud-refresh-help" }
}

/// The paused menu always offers the microphone toggle second, right after Resume, and
/// offers a refresh exactly when the stream can be refreshed; it ends with Exit and
/// always offers the diagnostics toggle and the settings.
pub proof fn law_menu_shape(can_refresh: bool)
    ensures
        menu(can_refresh).len() > 2,
        menu(can_refresh)[0] == Command::Resume,
        menu(can_refresh)[1] == Command::ToggleMicrophone,
        menu(can_refresh).last() == Command::ExitGame,
        menu(can_refresh).contains(Command::RefreshStream) <==> can_refresh,
        menu(can_refresh).contains(Command::ToggleDiagnostics),
        menu(can_refresh).contains(Command::Settings),
        !menu(can_refresh).contains(Command::PressGuideButton),
{
    let items = menu(can_refresh);
    if can_refresh {
        assert(items[2] == Command::RefreshStream);
        assert(items[3] == Command::ToggleDiagnostics);
        assert(items[4] == Command::Settings);
    } else {
        assert(items[2] == Command::ToggleDiagnostics);
        assert(items[3] == Command::Settings);
        assert forall|i: int| 0 <= i < items.len() implies items[i] != Command::RefreshStream by {}
    }
    assert forall|i: int| 0 <= i < items.len() implies items[i] != Command::PressGuideButton by {}
}

} // verus!
