//! Per-list hover flags and the drop resolver that reads them.
use vstd::prelude::*;

use crate::card::{CardId, CardState};

verus! {

/// Whether the pointer is over each of the three lists.
#[derive(Clone, Copy, Debug, PartialEq, Eq, Structural)]
pub struct HoverState {
    pub todo: bool,
    pub in_progress: bool,
    pub done: bool,
}

/// The one reassignment that a drop issues against the store.
#[derive(Clone, Copy, Debug, PartialEq, Eq, Structural)]
pub struct Reassignment {
    pub card: CardId,
    pub state: CardState,
}

impl HoverState {
    pub open spec fn hovers(self, s: CardState) -> bool {
        match s {
            CardState::Todo => self.todo,
            CardState::InProgress => self.in_progress,
            CardState::Done => self.done,
        }
    }

    /// The list a drop lands on: the first hovered list in the fixed order
    /// Todo, InProgress, Done, or none.
    pub open spec fn target(self) -> Option<CardState> {
        if self.todo {
            Some(CardState::Todo)
        } else if self.in_progress {
            Some(CardState::InProgress)
        } else if self.done {
            Some(CardState::Done)
        } else {
            None
        }
    }

    /// No list hovered.
    pub fn none() -> (r: HoverState)
        ensures
            forall|s: CardState| !r.hovers(s),
    {
        HoverState { todo: false, in_progress: false, done: false }
    }

    pub fn is_hovered(&self, s: CardState) -> (r: bool)
        ensures
            r == self.hovers(s),
    {
        match s {
            CardState::Todo => self.todo,
            CardState::InProgress => self.in_progress,
            CardState::Done => self.done,
        }
    }

    /// Records whether the pointer is over list `s`; the other flags stay.
    pub fn set(&mut self, s: CardState, hovered: bool)
        ensures
            final(self).hovers(s) == hovered,
            forall|t: CardState| t != s ==> final(self).hovers(t) == old(self).hovers(t),
    {
        match s {
            CardState::Todo => self.todo = hovered,
            CardState::InProgress => self.in_progress = hovered,
            CardState::Done => self.done = hovered,
        }
    }

    pub fn drop_target(&self) -> (r: Option<CardState>)
        ensures
            r == self.target(),
    {
        if self.todo {
            Some(CardState::Todo)
        } else if self.in_progress {
            Some(CardState::InProgress)
        } else if self.done {
            Some(CardState::Done)
        } else {
            None
        }
    }
}

pub open spec fn resolution(card: CardId, hover: HoverState) -> Option<Reassignment> {
    match hover.target() {
        Some(s) => Some(Reassignment { card, state: s }),
        None => None,
    }
}

/// What a drop of `card` does: a reassignment to the hovered list, or nothing
/// when no list is hovered.
pub fn resolve_drop(card: CardId, hover: &HoverState) -> (r: Option<Reassignment>)
    ensures
        r == resolution(card, *hover),
{
    match hover.drop_target() {
        Some(s) => Some(Reassignment { card, state: s }),
        None => None,
    }
}

} // verus!
