//! What a reducer reports after handling an action: whether the state
//! changed, and the effects the runtime should perform next.
use vstd::prelude::*;

verus! {

pub struct Outcome<E> {
    pub changed: bool,
    pub effects: Vec<E>,
}

impl<E> Outcome<E> {
    pub fn unchanged() -> (r: Outcome<E>)
        ensures
            !r.changed,
            r.effects@.len() == 0,
    {
        Outcome { changed: false, effects: Vec::new() }
    }

    pub fn changed() -> (r: Outcome<E>)
        ensures
            r.changed,
            r.effects@.len() == 0,
    {
        Outcome { changed: true, effects: Vec::new() }
    }

    pub fn changed_with(effect: E) -> (r: Outcome<E>)
        ensures
            r.changed,
            r.effects@ == seq![effect],
    {
        let mut effects = Vec::new();
        effects.push(effect);
        Outcome { changed: true, effects }
    }

    pub fn changed_with_many(effects: Vec<E>) -> (r: Outcome<E>)
        ensures
            r.changed,
            r.effects@ == effects@,
    {
        Outcome { changed: true, effects }
    }
}

} // verus!
