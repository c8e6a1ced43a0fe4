//! Controller gestures of the shell, polled once per frame. Back doubles as the game's
//! View button and as the hold-to-pause gesture: while held it is withheld from the
//! game, and it reaches the game as one View tap only when released before the pause
//! opened. Menu directions act on press and then repeat while held.
//!
//! Times are monotonic microseconds.
use vstd::prelude::*;
use crate::rtc::reorder::elapsed;

verus! {

/// How long Back is held to open the pause overlay.
pub const PAUSE_HOLD_US: u64 = 1_500_000;
/// A held direction starts repeating after this delay.
pub const DIRECTION_REPEAT_INITIAL_DELAY_US: u64 = 350_000;
/// Least time between two repeats of a held direction.
pub const DIRECTION_REPEAT_INTERVAL_US: u64 = 90_000;

/// Since when Back has been held, if it is.
#[derive(Clone, Copy, Debug, PartialEq, Eq, Structural)]
pub struct BackHold {
    pub held_since: Option<u64>,
}

/// What a Back gesture resolves to.
#[derive(Clone, Copy, Debug, PartialEq, Eq, Structural)]
pub enum BackAction {
    /// Held long enough: open the pause overlay.
    OpenPause,
    /// Released early: send one View press to the game.
    RelayView,
}

/// One poll of Back while a stream plays (`streaming`), with the button `held` or not.
/// Outside a playing stream the gesture is forgotten.
pub open spec fn back_decision(s: BackHold, streaming: bool, held: bool, now: u64) -> (BackHold, Option<BackAction>) {
    if !streaming {
        (BackHold { held_since: None }, None)
    } else if held {
        let since = match s.held_since {
            Some(t) => t,
            None => now,
        };
        if elapsed(now, since) >= PAUSE_HOLD_US {
            (BackHold { held_since: None }, Some(BackAction::OpenPause))
        } else {
            (BackHold { held_since: Some(since) }, None)
        }
    } else {
        match s.held_since {
            Some(t) => (
                BackHold { held_since: None },
                if elapsed(now, t) < PAUSE_HOLD_US { Some(BackAction::RelayView) } else { None },
            ),
            None => (BackHold { held_since: None }, None),
        }
    }
}

pub fn back_button_step(s: BackHold, streaming: bool, held: bool, now_us: u64) -> (step: (BackHold, Option<BackAction>))
    ensures
        step == back_decision(s, streaming, held, now_us),
{
    if !streaming {
        return (BackHold { held_since: None }, None);
    }
    if held {
        let since = match s.held_since {
            Some(t) => t,
            None => now_us,
        };
        if (if now_us >= since { now_us - since } else { 0 }) >= PAUSE_HOLD_US {
            (BackHold { held_since: None }, Some(BackAction::OpenPause))
        } else {
            (BackHold { held_since: Some(since) }, None)
        }
    } else {
        match s.held_since {
            Some(t) => {
                let early = (if now_us >= t { now_us - t } else { 0 }) < PAUSE_HOLD_US;
                (BackHold { held_since: None }, if early { Some(BackAction::RelayView) } else { None })
            },
            None => (BackHold { held_since: None }, None),
        }
    }
}

/// A held menu direction (by its code), since when, and when it last acted.
#[derive(Clone, Copy, Debug, PartialEq, Eq, Structural)]
pub struct DirectionRepeat {
    pub held: Option<u8>,
    pub since: u64,
    pub last_repeat: u64,
}

/// One poll of the menu direction: a new direction acts at once; the same one acts
/// again once held past the initial delay, at most once per interval; none forgets it.
pub open spec fn direction_decision(s: DirectionRepeat, direction: Option<u8>, now: u64) -> (DirectionRepeat, bool) {
    match direction {
        None => (DirectionRepeat { held: None, ..s }, false),
        Some(d) => if s.held == Some(d) {
            if elapsed(now, s.since) >= DIRECTION_REPEAT_INITIAL_DELAY_US && elapsed(now, s.last_repeat)
                >= DIRECTION_REPEAT_INTERVAL_US {
                (DirectionRepeat { last_repeat: now, ..s }, true)
            } else {
                (s, false)
            }
        } else {
            (DirectionRepeat { held: Some(d), since: now, last_repeat: now }, true)
        },
    }
}

pub fn direction_step(s: DirectionRepeat, direction: Option<u8>, now_us: u64) -> (step: (DirectionRepeat, bool))
    ensures
        step == direction_decision(s, direction, now_us),
{
    match direction {
        None => (DirectionRepeat { held: None, ..s }, false),
        Some(d) => {
            if s.held == Some(d) {
                let held_for = if now_us >= s.since { now_us - s.since } else { 0 };
                let since_repeat = if now_us >= s.last_repeat { now_us - s.last_repeat } else { 0 };
                if held_for >= DIRECTION_REPEAT_INITIAL_DELAY_US && since_repeat >= DIRECTION_REPEAT_INTERVAL_US {
                    (DirectionRepeat { last_repeat: now_us, ..s }, true)
                } else {
                    (s, false)
                }
            } else {
                (DirectionRepeat { held: Some(d), since: now_us, last_repeat: now_us }, true)
            }
        },
    }
}

/// Back never reaches the game while held, and a release after the pause opened sends
/// nothing: a View tap goes out only on an early release.
pub proof fn law_back_reaches_the_game_only_on_early_release(s: BackHold, streaming: bool, held: bool, now: u64)
    ensures
        back_decision(s, streaming, held, now).1 == Some(BackAction::RelayView) ==> streaming && !held && (s.held_since matches Some(
            t,
        ) && elapsed(now, t) < PAUSE_HOLD_US),
        back_decision(s, streaming, held, now).1 == Some(BackAction::OpenPause) ==> streaming && held,
        back_decision(s, streaming, held, now).1 is Some ==> back_decision(s, streaming, held, now).0.held_since is None,
{
}

/// Repeats of a held direction are at least the interval apart and start only after
/// the initial delay.
pub proof fn law_repeats_are_spaced(s: DirectionRepeat, d: u8, now: u64)
    requires
        s.held == Some(d),
    ensures
        direction_decision(s, Some(d), now).1 ==> elapsed(now, s.last_repeat) >= DIRECTION_REPEAT_INTERVAL_US
            && elapsed(now, s.since) >= DIRECTION_REPEAT_INITIAL_DELAY_US,
{
}

/// What Back resolves to over a run of polls while the stream plays: each poll is
/// whether Back is held and the time.
pub open spec fn back_run(s: BackHold, polls: Seq<(bool, u64)>) -> Seq<Option<BackAction>>
    decreases polls.len(),
{
    if polls.len() == 0 {
        Seq::empty()
    } else {
        let (next, action) = back_decision(s, true, polls[0].0, polls[0].1);
        seq![action] + back_run(next, polls.drop_first())
    }
}

proof fn lemma_hold_run(s: BackHold, polls: Seq<(bool, u64)>, start: u64)
    requires
        polls.len() > 0,
        s.held_since == Some(start) || (s.held_since is None && polls[0].1 == start),
        forall|i: int| 0 <= i < polls.len() ==> #[trigger] polls[i].0 && polls[i].1 >= start,
        forall|i: int| 0 <= i < polls.len() - 1 ==> #[trigger] polls[i].1 - start < PAUSE_HOLD_US,
    ensures
        back_run(s, polls).len() == polls.len(),
        forall|i: int| 0 <= i < polls.len() - 1 ==> #[trigger] back_run(s, polls)[i] is None,
        back_run(s, polls).last() == (if polls.last().1 - start >= PAUSE_HOLD_US {
            Some(BackAction::OpenPause)
        } else {
            None
        }),
    decreases polls.len(),
{
    let (next, action) = back_decision(s, true, polls[0].0, polls[0].1);
    let rest = polls.drop_first();
    if polls.len() == 1 {
        assert(rest.len() == 0);
    } else {
        assert(polls[0].1 - start < PAUSE_HOLD_US);
        assert(next.held_since == Some(start));
        assert forall|i: int| 0 <= i < rest.len() implies #[trigger] rest[i].0 && rest[i].1 >= start by {
            assert(rest[i] == polls[i + 1]);
        }
        assert forall|i: int| 0 <= i < rest.len() - 1 implies #[trigger] rest[i].1 - start < PAUSE_HOLD_US by {
            assert(rest[i] == polls[i + 1]);
        }
        lemma_hold_run(next, rest, start);
        let run = back_run(s, polls);
        assert(run == seq![action] + back_run(next, rest));
        assert forall|i: int| 0 <= i < polls.len() - 1 implies #[trigger] run[i] is None by {
            if i > 0 {
                assert(run[i] == back_run(next, rest)[i - 1]);
            }
        }
        assert(rest.last() == polls.last());
    }
}

/// A hold of Back while the stream plays, polled from its first poll until the pause
/// opens: nothing reaches the game and nothing opens until the first poll at least the
/// hold time after the first, and that poll opens the pause overlay, once.
pub proof fn law_one_pause_per_hold(polls: Seq<(bool, u64)>)
    requires
        polls.len() > 0,
        forall|i: int| 0 <= i < polls.len() ==> #[trigger] polls[i].0 && polls[i].1 >= polls[0].1,
        forall|i: int| 0 <= i < polls.len() - 1 ==> #[trigger] polls[i].1 - polls[0].1 < PAUSE_HOLD_US,
    ensures
        back_run(BackHold { held_since: None }, polls).len() == polls.len(),
        forall|i: int| 0 <= i < polls.len() - 1 ==> #[trigger] back_run(BackHold { held_since: None }, polls)[i] is None,
        back_run(BackHold { held_since: None }, polls).last() == (if polls.last().1 - polls[0].1 >= PAUSE_HOLD_US {
            Some(BackAction::OpenPause)
        } else {
            None
        }),
{
    lemma_hold_run(BackHold { held_since: None }, polls, polls[0].1);
}

/// A short press of Back: held from the first poll, released at the last, all within
/// the hold time. Nothing happens while it is held, the pause does not open, and the
/// release sends exactly one View tap to the game.
pub proof fn law_short_press_is_one_view_tap(polls: Seq<(bool, u64)>)
    requires
        polls.len() > 1,
        forall|i: int| 0 <= i < polls.len() - 1 ==> #[trigger] polls[i].0,
        !polls.last().0,
        forall|i: int| 0 <= i < polls.len() ==> #[trigger] polls[i].1 >= polls[0].1 && polls[i].1 - polls[0].1
            < PAUSE_HOLD_US,
    ensures
        back_run(BackHold { held_since: None }, polls).len() == polls.len(),
        forall|i: int| 0 <= i < polls.len() - 1 ==> #[trigger] back_run(BackHold { held_since: None }, polls)[i] is None,
        back_run(BackHold { held_since: None }, polls).last() == Some(BackAction::RelayView),
{
    let start = polls[0].1;
    lemma_press_then_release(BackHold { held_since: None }, polls, start);
}

proof fn lemma_press_then_release(s: BackHold, polls: Seq<(bool, u64)>, start: u64)
    requires
        polls.len() > 1,
        s.held_since == Some(start) || (s.held_since is None && polls[0].1 == start),
        forall|i: int| 0 <= i < polls.len() - 1 ==> #[trigger] polls[i].0,
        !polls.last().0,
        forall|i: int| 0 <= i < polls.len() ==> #[trigger] polls[i].1 >= start && polls[i].1 - start < PAUSE_HOLD_US,
    ensures
        back_run(s, polls).len() == polls.len(),
        forall|i: int| 0 <= i < polls.len() - 1 ==> #[trigger] back_run(s, polls)[i] is None,
        back_run(s, polls).last() == Some(BackAction::RelayView),
    decreases polls.len(),
{
    let (next, action) = back_decision(s, true, polls[0].0, polls[0].1);
    let rest = polls.drop_first();
    assert(polls[0].0);
    assert(next.held_since == Some(start));
    let run = back_run(s, polls);
    assert(run == seq![action] + back_run(next, rest));
    if polls.len() == 2 {
        assert(rest.len() == 1);
        assert(rest[0] == polls[1]);
        assert(back_run(next, rest) == seq![back_decision(next, true, rest[0].0, rest[0].1).1] + back_run(
            back_decision(next, true, rest[0].0, rest[0].1).0,
            rest.drop_first(),
        ));
        assert(rest.drop_first().len() == 0);
    } else {
        assert forall|i: int| 0 <= i < rest.len() - 1 implies #[trigger] rest[i].0 by {
            assert(rest[i] == polls[i + 1]);
        }
        assert forall|i: int| 0 <= i < rest.len() implies #[trigger] rest[i].1 >= start && rest[i].1 - start
            < PAUSE_HOLD_US by {
            assert(rest[i] == polls[i + 1]);
        }
        assert(rest.last() == polls.last());
        lemma_press_then_release(next, rest, start);
        assert forall|i: int| 0 <= i < polls.len() - 1 implies #[trigger] run[i] is None by {
            if i > 0 {
                assert(run[i] == back_run(next, rest)[i - 1]);
            }
        }
    }
}

} // verus!
