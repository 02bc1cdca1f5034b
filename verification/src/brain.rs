//! The counter session state machine: a pair of bounded tallies, a history
//! of committed snapshots, and the events that move between states.

use vstd::prelude::*;

verus! {

/// A pair of tally values. An immutable value type: it is copied, never
/// referenced, when a snapshot is pushed onto the history.
#[derive(Clone, Copy, PartialEq, Eq, Structural, Debug)]
pub struct State {
    pub counterA: u8,
    pub counterB: u8,
}

/// The state a fresh session starts from, and the one `Clear` returns to.
pub open spec fn zero_state() -> State {
    State { counterA: 0, counterB: 0 }
}

impl State {
    /// The zero pair.
    pub fn new() -> (s: Self)
        ensures
            s == zero_state(),
    {
        Self { counterA: 0, counterB: 0 }
    }
}

/// A user intent, handed to [`Brain::update`] by whatever collects input.
#[derive(Clone, Copy, PartialEq, Eq, Structural, Debug)]
pub enum Event {
    IncrementA,
    DecrementA,
    IncrementB,
    DecrementB,
    Commit,
    Rollback,
    Clear,
}

/// `v + 1`, clamped at the largest representable tally.
pub open spec fn inc_sat(v: u8) -> u8 {
    if v == 255 {
        255u8
    } else {
        (v + 1) as u8
    }
}

/// `v - 1`, clamped at zero.
pub open spec fn dec_sat(v: u8) -> u8 {
    if v == 0 {
        0u8
    } else {
        (v - 1) as u8
    }
}

/// The transition function of the session, over the mathematical model:
/// the current pair `s` and the history sequence `h`, oldest entry first.
///
/// A `Commit` whose snapshot equals the most recent history entry is
/// suppressed, so the history never holds two equal consecutive snapshots.
pub open spec fn apply_spec(s: State, h: Seq<State>, e: Event) -> (State, Seq<State>) {
    match e {
        Event::IncrementA => (State { counterA: inc_sat(s.counterA), ..s }, h),
        Event::DecrementA => (State { counterA: dec_sat(s.counterA), ..s }, h),
        Event::IncrementB => (State { counterB: inc_sat(s.counterB), ..s }, h),
        Event::DecrementB => (State { counterB: dec_sat(s.counterB), ..s }, h),
        Event::Commit => if h.len() > 0 && h.last() == s {
            (s, h)
        } else {
            (s, h.push(s))
        },
        Event::Rollback => if h.len() > 0 {
            (h.last(), h.drop_last())
        } else {
            (s, h)
        },
        Event::Clear => (zero_state(), Seq::empty()),
    }
}

/// Whether counter A may be decremented: only down to the value of the most
/// recently committed snapshot, or down to zero while nothing is committed.
pub open spec fn can_decrement_a_spec(s: State, h: Seq<State>) -> bool {
    if h.len() > 0 {
        h.last().counterA < s.counterA
    } else {
        s.counterA > 0
    }
}

/// Whether counter B may be decremented; the same policy as for A.
pub open spec fn can_decrement_b_spec(s: State, h: Seq<State>) -> bool {
    if h.len() > 0 {
        h.last().counterB < s.counterB
    } else {
        s.counterB > 0
    }
}

/// The session: the one mutable current pair, and the append-only history of
/// committed snapshots (only [`Event::Rollback`] pops, only [`Event::Clear`]
/// erases). The history is ordered oldest first.
pub struct Brain {
    pub state: State,
    pub state_history: Vec<State>,
}

impl Brain {
    /// A fresh session: the zero pair and an empty history.
    pub fn new() -> (b: Self)
        ensures
            b.state == zero_state(),
            b.state_history@ == Seq::<State>::empty(),
    {
        Self { state: State::new(), state_history: Vec::new() }
    }

    /// Apply one event. Never fails: out-of-range increments and decrements
    /// saturate, and `Commit` / `Rollback` on an unchanged or empty history
    /// are no-ops. The whole effect is [`apply_spec`].
    pub fn update(&mut self, event: Event)
        ensures
            final(self).state == apply_spec(old(self).state, old(self).state_history@, event).0,
            final(self).state_history@ == apply_spec(
                old(self).state,
                old(self).state_history@,
                event,
            ).1,
    {
        match event {
            Event::IncrementA => {
                self.state.counterA = self.state.counterA.saturating_add(1);
            },
            Event::DecrementA => {
                self.state.counterA = self.state.counterA.saturating_sub(1);
            },
            Event::IncrementB => {
                self.state.counterB = self.state.counterB.saturating_add(1);
            },
            Event::DecrementB => {
                self.state.counterB = self.state.counterB.saturating_sub(1);
            },
            Event::Commit => {
                let n = self.state_history.len();
                if n > 0 && self.state_history[n - 1] == self.state {
                    return;
                }
                self.state_history.push(self.state);
            },
            Event::Rollback => {
                if let Some(top) = self.state_history.pop() {
                    self.state = top;
                }
            },
            Event::Clear => {
                self.state = State::new();
                self.state_history.clear();
            },
        }
    }

    /// Whether decrementing counter A is currently legal; see
    /// [`can_decrement_a_spec`] for the policy.
    pub fn canDecrementA(&self) -> (r: bool)
        ensures
            r == can_decrement_a_spec(self.state, self.state_history@),
    {
        let n = self.state_history.len();
        if n > 0 {
            self.state_history[n - 1].counterA < self.state.counterA
        } else {
            self.state.counterA > 0
        }
    }

    /// Whether decrementing counter B is currently legal; see
    /// [`can_decrement_b_spec`] for the policy.
    pub fn canDecrementB(&self) -> (r: bool)
        ensures
            r == can_decrement_b_spec(self.state, self.state_history@),
    {
        let n = self.state_history.len();
        if n > 0 {
            self.state_history[n - 1].counterB < self.state.counterB
        } else {
            self.state.counterB > 0
        }
    }

    /// Whether committing is currently legal. No rule restricts it: a commit
    /// control is always available.
    pub fn can_commit(&self) -> (r: bool)
        ensures
            r,
    {
        true
    }
}

/// Law: decrementing undoes incrementing, except from the saturation point,
/// and decrementing zero leaves zero.
pub proof fn lemma_increment_decrement_roundtrip(v: u8)
    ensures
        v < 255 ==> dec_sat(inc_sat(v)) == v,
        dec_sat(0) == 0,
{
}

/// Law: after `Clear`, the current state is the zero pair and the history is
/// empty, whatever the session held before.
pub proof fn lemma_clear_resets(s: State, h: Seq<State>)
    ensures
        apply_spec(s, h, Event::Clear).0 == zero_state(),
        apply_spec(s, h, Event::Clear).1 == Seq::<State>::empty(),
{
}

/// Law: a `Commit` followed by a `Rollback` restores the current state that
/// stood immediately before the `Commit`; and whenever the `Commit` really
/// pushed (no duplicate snapshot was suppressed), the history is restored
/// with it, a full round trip.
pub proof fn lemma_commit_rollback_roundtrip(s: State, h: Seq<State>)
    ensures
        ({
            let committed = apply_spec(s, h, Event::Commit);
            apply_spec(committed.0, committed.1, Event::Rollback).0 == s
        }),
        !(h.len() > 0 && h.last() == s) ==> ({
            let committed = apply_spec(s, h, Event::Commit);
            let rolled = apply_spec(committed.0, committed.1, Event::Rollback);
            rolled.0 == s && rolled.1 == h
        }),
{
    if !(h.len() > 0 && h.last() == s) {
        assert(h.push(s).drop_last() =~= h);
    }
}

/// Law: immediately after a `Commit` the current pair equals the most recent
/// history entry, so neither counter may be decremented; counter A becomes
/// decrementable again after an `IncrementA`, as long as the commit did not
/// happen at the saturation point.
pub proof fn lemma_commit_disables_decrement(s: State, h: Seq<State>)
    ensures
        ({
            let committed = apply_spec(s, h, Event::Commit);
            !can_decrement_a_spec(committed.0, committed.1)
                && !can_decrement_b_spec(committed.0, committed.1)
        }),
        s.counterA < 255 ==> ({
            let committed = apply_spec(s, h, Event::Commit);
            let bumped = apply_spec(committed.0, committed.1, Event::IncrementA);
            can_decrement_a_spec(bumped.0, bumped.1)
        }),
{
}

/// Law: after a `Commit`, no single event other than `IncrementA` or
/// `Rollback` makes counter A decrementable (a `Rollback` may expose an
/// older, smaller snapshot and so is left out).
pub proof fn lemma_commit_keeps_decrement_a_disabled(s: State, h: Seq<State>, e: Event)
    requires
        e != Event::IncrementA,
        e != Event::Rollback,
    ensures
        ({
            let committed = apply_spec(s, h, Event::Commit);
            let stepped = apply_spec(committed.0, committed.1, e);
            !can_decrement_a_spec(stepped.0, stepped.1)
        }),
{
}

/// Law: a `Rollback` on an empty history changes nothing.
pub proof fn lemma_rollback_empty_noop(s: State)
    ensures
        apply_spec(s, Seq::<State>::empty(), Event::Rollback).0 == s,
        apply_spec(s, Seq::<State>::empty(), Event::Rollback).1 == Seq::<State>::empty(),
{
}

} // verus!
