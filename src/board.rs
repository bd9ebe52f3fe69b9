//! The board: one card store and one drag session, joined at the drop.
use vstd::prelude::*;

use crate::card::{CardId, CardModel, CardState};
use crate::drag::{DragPhase, DragTracker};
use crate::hover::{resolution, resolve_drop, HoverState, Reassignment};
use crate::seed::{dummy_count, dummy_entry, shows_entry};
use crate::store::{reassigned, CardStore};

verus! {

/// The cards after a drag of `card` ends with the pointer as `hover` says.
pub open spec fn after_drop(cards: Seq<CardModel>, card: CardId, hover: HoverState) -> Seq<CardModel> {
    match resolution(card, hover) {
        Some(m) => reassigned(cards, m.card, m.state),
        None => cards,
    }
}

pub struct Board {
    pub store: CardStore,
    pub drag: DragTracker,
}

impl Board {
    pub open spec fn wf(&self) -> bool {
        self.store.wf()
    }

    /// An empty board whose drags start past `threshold` pixels.
    pub fn new(threshold: u32) -> (r: Board)
        ensures
            r.wf(),
            r.store@ == Seq::<CardModel>::empty(),
            r.store.issued() == Set::<CardId>::empty(),
            r.drag.threshold == threshold,
            r.drag.phase == DragPhase::Idle,
    {
        Board { store: CardStore::new(), drag: DragTracker::new(threshold) }
    }

    /// A board holding the starting cards; see `CardStore::with_dummy_data`.
    pub fn with_dummy_data(threshold: u32) -> (r: Board)
        ensures
            r.wf(),
            1 <= r.store@.len() <= dummy_count(),
            shows_entry(r@[0], dummy_entry(0)),
            forall|k: int| 0 <= k < r@.len() ==> !(#[trigger] r@[k]).is_editing,
            r@.len() == dummy_count() ==> forall|k: int|
                0 <= k < dummy_count() ==> shows_entry(#[trigger] r@[k], dummy_entry(k)),
            r.drag.threshold == threshold,
            r.drag.phase == DragPhase::Idle,
    {
        Board { store: CardStore::with_dummy_data(), drag: DragTracker::new(threshold) }
    }

    /// The pointer is released over the lists as `hover` says. If a card was
    /// being dragged, its drag ends and the one reassignment that the drop
    /// resolves to, if any, is applied to the store and returned. The drag
    /// session ends in every case.
    pub fn end_drag(&mut self, hover: &HoverState) -> (r: Option<Reassignment>)
        requires
            old(self).wf(),
        ensures
            final(self).wf(),
            final(self).drag.phase == DragPhase::Idle,
            final(self).drag.threshold == old(self).drag.threshold,
            final(self).store.issued() == old(self).store.issued(),
            match old(self).drag.dragged() {
                Some(card) => {
                    &&& r == resolution(card, *hover)
                    &&& final(self)@ == after_drop(old(self)@, card, *hover)
                },
                None => r == None::<Reassignment> && final(self)@ == old(self)@,
            },
    {
        match self.drag.release() {
            None => None,
            Some(card) => {
                let r = resolve_drop(card, hover);
                if let Some(m) = r {
                    self.store.reassign(m.card, m.state);
                }
                r
            },
        }
    }
}

impl View for Board {
    type V = Seq<CardModel>;

    open spec fn view(&self) -> Seq<CardModel> {
        self.store@
    }
}

/// A drag released over no list leaves every card as it was.
pub proof fn lemma_drop_off_target(cards: Seq<CardModel>, card: CardId, hover: HoverState)
    requires
        forall|s: CardState| !hover.hovers(s),
    ensures
        resolution(card, hover) == None::<Reassignment>,
        after_drop(cards, card, hover) == cards,
{
    assert(!hover.hovers(CardState::Todo));
    assert(!hover.hovers(CardState::InProgress));
    assert(!hover.hovers(CardState::Done));
}

/// A drag released over exactly one list `target` issues one reassignment of
/// the card to that list, and the cards are the cards after that one move.
pub proof fn lemma_drop_on_one_list(
    cards: Seq<CardModel>,
    card: CardId,
    hover: HoverState,
    target: CardState,
)
    requires
        hover.hovers(target),
        forall|s: CardState| s != target ==> !hover.hovers(s),
    ensures
        resolution(card, hover) == Some(Reassignment { card, state: target }),
        after_drop(cards, card, hover) == reassigned(cards, card, target),
        forall|k: int|
            0 <= k < cards.len() && cards[k].id == card ==> (#[trigger] after_drop(cards, card, hover)[k]).state
                == target,
{
    assert(target == CardState::Todo || !hover.hovers(CardState::Todo));
    assert(target == CardState::InProgress || !hover.hovers(CardState::InProgress));
    assert(target == CardState::Done || !hover.hovers(CardState::Done));
}

} // verus!
