//! Gesture ownership for the streaming overlay buttons. An overlay tap must never
//! become a game pointer or an optional front-touch trigger/stick press.
use vstd::prelude::*;

verus! {

/// A touch or mouse pointer.
#[derive(Clone, Copy, PartialEq, Eq, Structural, Debug)]
pub enum Pointer {
    Finger(i64),
    Mouse,
}

#[derive(Clone, Copy, PartialEq, Eq, Structural, Debug)]
pub enum Phase {
    Down,
    Move,
    Up,
}

/// Where a pointer event goes.
#[derive(Clone, Copy, PartialEq, Eq, Structural, Debug)]
pub enum Route {
    Ui,
    Game,
    Consumed,
}

/// Abstract state: the pointers captured by the overlay, and the one that acts.
pub ghost struct GateModel {
    pub owned: Set<Pointer>,
    pub primary: Option<Pointer>,
}

impl GateModel {
    pub open spec fn route(self, pointer: Pointer, phase: Phase, inside: bool) -> (Self, Route) {
        let captured = if phase == Phase::Down && inside {
            GateModel {
                owned: self.owned.insert(pointer),
                primary: if self.primary is None { Some(pointer) } else { self.primary },
            }
        } else {
            self
        };
        if !captured.owned.contains(pointer) {
            (captured, Route::Game)
        } else {
            let route = if captured.primary == Some(pointer) { Route::Ui } else { Route::Consumed };
            if phase == Phase::Up {
                (
                    GateModel {
                        owned: captured.owned.remove(pointer),
                        primary: if captured.primary == Some(pointer) { None } else { captured.primary },
                    },
                    route,
                )
            } else {
                (captured, route)
            }
        }
    }
}

/// Routes pointer events between the overlay and the game.
pub struct TouchGate {
    owned: Vec<Pointer>,
    primary: Option<Pointer>,
}

impl View for TouchGate {
    type V = GateModel;

    closed spec fn view(&self) -> GateModel {
        GateModel { owned: self.owned@.to_set(), primary: self.primary }
    }
}

impl TouchGate {
    pub closed spec fn wf(&self) -> bool {
        self.owned@.no_duplicates()
    }

    pub fn new() -> (gate: Self)
        ensures
            gate.wf(),
            gate@.owned == Set::<Pointer>::empty(),
            gate@.primary is None,
    {
        TouchGate { owned: Vec::new(), primary: None }
    }

    fn position(&self, pointer: Pointer) -> (index: Option<usize>)
        ensures
            match index {
                Some(i) => i < self.owned@.len() && self.owned@[i as int] == pointer,
                None => !self.owned@.contains(pointer),
            },
    {
        let mut k: usize = 0;
        while k < self.owned.len()
            invariant
                k <= self.owned@.len(),
                forall|j: int| 0 <= j < k ==> self.owned@[j] != pointer,
            decreases self.owned@.len() - k,
        {
            if self.owned[k] == pointer {
                return Some(k);
            }
            k += 1;
        }
        None
    }

    /// A press inside a button captures the pointer until it lifts, wherever it moves;
    /// only the first captured pointer acts, others are consumed.
    pub fn route(&mut self, pointer: Pointer, phase: Phase, inside: bool) -> (route: Route)
        requires
            old(self).wf(),
        ensures
            final(self).wf(),
            (final(self)@, route) == old(self)@.route(pointer, phase, inside),
    {
        if phase == Phase::Down && inside {
            if self.position(pointer).is_none() {
                self.owned.push(pointer);
                proof {
                    old(self).owned@.lemma_push_to_set_commute(pointer);
                    assert(self.owned@ == old(self).owned@.push(pointer));
                }
            } else {
                proof {
                    assert(old(self).owned@.to_set().contains(pointer));
                    assert(old(self).owned@.to_set().insert(pointer) =~= old(self).owned@.to_set());
                }
            }
            if self.primary.is_none() {
                self.primary = Some(pointer);
            }
        }
        let ghost captured = self@;
        let index = match self.position(pointer) {
            Some(index) => index,
            None => return Route::Game,
        };
        let route = if self.primary == Some(pointer) { Route::Ui } else { Route::Consumed };
        if phase == Phase::Up {
            let ghost before = self.owned@;
            self.owned.remove(index);
            proof {
                assert(self.owned@ =~= before.remove(index as int));
                assert forall|x: Pointer| self.owned@.to_set().contains(x) == before.to_set().remove(pointer).contains(x) by {
                    if self.owned@.contains(x) {
                        let j = choose|j: int| 0 <= j < self.owned@.len() && self.owned@[j] == x;
                        let o = if j < index { j } else { j + 1 };
                        assert(before[o] == x);
                        if x == pointer {
                            assert(o != index as int);
                        }
                    }
                    if before.contains(x) && x != pointer {
                        let o = choose|o: int| 0 <= o < before.len() && before[o] == x;
                        let j = if o < index { o } else { o - 1 };
                        assert(self.owned@[j] == x);
                    }
                }
                assert(self.owned@.to_set() =~= before.to_set().remove(pointer));
                assert forall|a: int, b: int| 0 <= a < b < self.owned@.len() implies self.owned@[a] != self.owned@[b] by {
                    let oa = if a < index { a } else { a + 1 };
                    let ob = if b < index { b } else { b + 1 };
                    assert(self.owned@[a] == before[oa] && self.owned@[b] == before[ob]);
                }
            }
            if self.primary == Some(pointer) {
                self.primary = None;
            }
        }
        route
    }
}

impl Default for TouchGate {
    fn default() -> (gate: Self)
        ensures
            gate.wf(),
            gate@.owned == Set::<Pointer>::empty(),
            gate@.primary is None,
    {
        TouchGate::new()
    }
}

/// A pointer that did not press inside a button always goes to the game.
pub proof fn law_uncaptured_pointer_goes_to_game(m: GateModel, pointer: Pointer, phase: Phase, inside: bool)
    requires
        !m.owned.contains(pointer),
        !(phase == Phase::Down && inside),
    ensures
        m.route(pointer, phase, inside) == (m, Route::Game),
{
}

/// A captured pointer never leaks to the game, even when it moves outside the button.
pub proof fn law_captured_pointer_never_reaches_game(m: GateModel, pointer: Pointer, phase: Phase, inside: bool)
    requires
        m.owned.contains(pointer),
    ensures
        m.route(pointer, phase, inside).1 != Route::Game,
{
}

/// A second finger can neither act nor end the primary gesture.
pub proof fn law_second_finger_cannot_release_primary(m: GateModel, first: Pointer, second: Pointer, phase: Phase, inside: bool)
    requires
        m.primary == Some(first),
        first != second,
    ensures
        m.route(second, phase, inside).1 != Route::Ui,
        m.route(second, phase, inside).0.primary == Some(first),
{
}

} // verus!
