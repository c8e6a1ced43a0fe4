//! One unsent controller state, replaceable by a newer sample or pulse release.
use vstd::prelude::*;

verus! {

/// At most one controller state waiting to be sent.
pub struct LatestInput<T>(pub Option<T>);

impl<T> LatestInput<T> {
    pub fn new() -> (pending: Self)
        ensures
            pending.0 is None,
    {
        LatestInput(None)
    }

    /// A newer state replaces any unsent one.
    pub fn replace(&mut self, state: T)
        ensures
            final(self).0 == Some(state),
    {
        self.0 = Some(state);
    }

    /// Offer the pending state to `send`; it is dropped only when `send` accepts it,
    /// so an accepted state is never replayed and a refused one is retried later.
    pub fn try_send<F: FnOnce(&T) -> bool>(&mut self, send: F)
        requires
            old(self).0 matches Some(state) ==> send.requires((&state,)),
        ensures
            old(self).0 is None ==> final(self).0 is None,
            old(self).0 matches Some(state) ==> exists|accepted: bool|
                send.ensures((&state,), accepted) && if accepted { final(self).0 is None } else { final(self).0 == old(self).0 },
    {
        let accepted = match &self.0 {
            Some(state) => send(state),
            None => false,
        };
        if accepted {
            self.0 = None;
        }
    }
}

impl<T> Default for LatestInput<T> {
    fn default() -> (pending: Self)
        ensures
            pending.0 is None,
    {
        LatestInput::new()
    }
}

} // verus!
