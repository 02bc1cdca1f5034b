//! The aggregate that an interactive front end owns: the session plus two
//! free-text labels naming the counters. The front end renders it each
//! frame and forwards user intents to the session as events; it holds no
//! invariants of its own beyond the session's.

use vstd::prelude::*;

use crate::brain::{zero_state, Brain, State};

verus! {

/// The whole application state: one session and the two column labels.
pub struct MyApp {
    pub label_a: String,
    pub label_b: String,
    pub brain: Brain,
}

impl Default for MyApp {
    /// What a sitting starts from when nothing was persisted: the default
    /// labels and a fresh session.
    fn default() -> (r: Self)
        ensures
            r.label_a@ == "Nosotres"@,
            r.label_b@ == "Elles"@,
            r.brain.state == zero_state(),
            r.brain.state_history@ == Seq::<State>::empty(),
    {
        Self {
            label_a: "Nosotres".to_owned(),
            label_b: "Elles".to_owned(),
            brain: Brain::new(),
        }
    }
}

} // verus!
