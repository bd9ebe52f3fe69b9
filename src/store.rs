//! The card store: the one owner of all cards, in insertion order.
use vstd::prelude::*;

use crate::card::{new_id, Card, CardId, CardModel, CardPatch, CardState, PatchModel};

verus! {

/// The mathematical values of a sequence of cards.
pub open spec fn models(v: Seq<Card>) -> Seq<CardModel> {
    v.map_values(|c: Card| c@)
}

pub open spec fn state_is(s: CardState) -> spec_fn(CardModel) -> bool {
    |c: CardModel| c.state == s
}

pub open spec fn id_is_not(id: CardId) -> spec_fn(CardModel) -> bool {
    |c: CardModel| c.id != id
}

/// The cards of list `s`, in store order.
pub open spec fn in_state(cards: Seq<CardModel>, s: CardState) -> Seq<CardModel> {
    cards.filter(state_is(s))
}

pub open spec fn has_id(cards: Seq<CardModel>, id: CardId) -> bool {
    exists|i: int| 0 <= i < cards.len() && cards[i].id == id
}

pub open spec fn unique_ids(cards: Seq<CardModel>) -> bool {
    forall|i: int, j: int| 0 <= i < j < cards.len() ==> cards[i].id != cards[j].id
}

/// The cards after the card `id` (if any) has the patch `p` applied.
pub open spec fn updated(cards: Seq<CardModel>, id: CardId, p: PatchModel) -> Seq<CardModel> {
    cards.map_values(|c: CardModel| if c.id == id { c.patched(p) } else { c })
}

/// The cards after the card `id` (if any) is moved to list `s`.
pub open spec fn reassigned(cards: Seq<CardModel>, id: CardId, s: CardState) -> Seq<CardModel> {
    cards.map_values(|c: CardModel| if c.id == id { c.moved(s) } else { c })
}

/// The cards without the card `id`.
pub open spec fn deleted(cards: Seq<CardModel>, id: CardId) -> Seq<CardModel> {
    cards.filter(id_is_not(id))
}

/// All cards of the board, and every identifier it has ever handed out.
pub struct CardStore {
    cards: Vec<Card>,
    issued: Vec<CardId>,
}

impl View for CardStore {
    type V = Seq<CardModel>;

    closed spec fn view(&self) -> Seq<CardModel> {
        models(self.cards@)
    }
}

impl CardStore {
    /// The identifiers that this store has ever given to a card; never reused.
    pub closed spec fn issued(&self) -> Set<CardId> {
        self.issued@.to_set()
    }

    /// Identifiers are unique, and each card's identifier is recorded as issued.
    pub open spec fn wf(&self) -> bool {
        &&& unique_ids(self@)
        &&& forall|i: int| 0 <= i < self@.len() ==> self.issued().contains(#[trigger] self@[i].id)
    }

    pub fn new() -> (r: CardStore)
        ensures
            r.wf(),
            r@ == Seq::<CardModel>::empty(),
            r.issued() == Set::<CardId>::empty(),
    {
        let r = CardStore { cards: Vec::new(), issued: Vec::new() };
        proof {
            assert(r@ =~= Seq::<CardModel>::empty());
            assert(r.issued() =~= Set::<CardId>::empty());
        }
        r
    }

    /// Adds `card` at the end, unless its identifier was ever issued before;
    /// returns whether it was added.
    pub fn insert(&mut self, card: Card) -> (added: bool)
        requires
            old(self).wf(),
        ensures
            final(self).wf(),
            added == !old(self).issued().contains(card.id),
            added ==> final(self)@ == old(self)@.push(card@),
            added ==> final(self).issued() == old(self).issued().insert(card.id),
            !added ==> final(self)@ == old(self)@,
            !added ==> final(self).issued() == old(self).issued(),
    {
        if self.was_issued(card.id) {
            return false;
        }
        let ghost old_cards = self@;
        let ghost card_v = card@;
        let id = card.id;
        self.cards.push(card);
        self.issued.push(id);
        proof {
            assert(self@ =~= old_cards.push(card_v));
            assert(self.issued@.to_set() =~= old(self).issued@.to_set().insert(id)) by {
                assert forall|x: CardId| self.issued@.contains(x) <==> (
                old(self).issued@.contains(x) || x == id) by {
                    if old(self).issued@.contains(x) {
                        let k = choose|k: int| 0 <= k < old(self).issued@.len() && old(self).issued@[k] == x;
                        assert(self.issued@[k] == x);
                    }
                    if x == id {
                        assert(self.issued@[self.issued@.len() - 1] == x);
                    }
                }
            }
            assert forall|i: int| 0 <= i < self@.len() implies self.issued().contains(#[trigger] self@[i].id) by {
                if i < old_cards.len() {
                    assert(old(self).issued().contains(old_cards[i].id));
                }
            }
        }
        true
    }

    /// Adds a fresh card in list `state` (empty name and description, open for
    /// editing) under `id`, unless `id` was ever issued before; returns whether it
    /// was added.
    pub fn create_with_id(&mut self, id: CardId, state: CardState) -> (added: bool)
        requires
            old(self).wf(),
        ensures
            final(self).wf(),
            added == !old(self).issued().contains(id),
            added ==> final(self)@ == old(self)@.push(CardModel::fresh(id, state)),
            added ==> final(self).issued() == old(self).issued().insert(id),
            added ==> in_state(final(self)@, state) == in_state(old(self)@, state).push(
                CardModel::fresh(id, state),
            ),
            added ==> in_state(final(self)@, state).len() == in_state(old(self)@, state).len() + 1,
            added ==> forall|t: CardState|
                t != state ==> #[trigger] in_state(final(self)@, t) == in_state(old(self)@, t),
            added ==> forall|i: int|
                0 <= i < final(self)@.len() && #[trigger] final(self)@[i].id == id ==> i
                    == old(self)@.len(),
            !added ==> final(self)@ == old(self)@,
            !added ==> final(self).issued() == old(self).issued(),
    {
        let added = self.insert(Card::new(id, state));
        proof {
            if added {
                assert(!has_id(old(self)@, id)) by {
                    if has_id(old(self)@, id) {
                        let k = choose|k: int| 0 <= k < old(self)@.len() && old(self)@[k].id == id;
                        assert(old(self).issued().contains(old(self)@[k].id));
                    }
                }
                lemma_create_adds_one(old(self)@, id, state);
            }
        }
        added
    }

    /// Adds a fresh card in list `state` under a newly drawn random identifier.
    /// Returns that identifier, or `None` (and leaves the store as it was) in the
    /// event that the draw repeats an identifier issued before.
    pub fn create(&mut self, state: CardState) -> (r: Option<CardId>)
        requires
            old(self).wf(),
        ensures
            final(self).wf(),
            match r {
                Some(id) => {
                    &&& !old(self).issued().contains(id)
                    &&& final(self)@ == old(self)@.push(CardModel::fresh(id, state))
                    &&& final(self).issued() == old(self).issued().insert(id)
                    &&& in_state(final(self)@, state).len() == in_state(old(self)@, state).len() + 1
                },
                None => final(self)@ == old(self)@ && final(self).issued() == old(self).issued(),
            },
            old(self).issued() == Set::<CardId>::empty() ==> r.is_some(),
    {
        let id = new_id();
        if self.create_with_id(id, state) {
            Some(id)
        } else {
            None
        }
    }

    /// Applies `patch` to the card `id`; returns whether the store holds that card.
    /// An absent card is no error: nothing changes.
    pub fn update(&mut self, id: CardId, patch: CardPatch) -> (found: bool)
        requires
            old(self).wf(),
        ensures
            final(self).wf(),
            found == has_id(old(self)@, id),
            final(self)@ == updated(old(self)@, id, patch@),
            final(self).issued() == old(self).issued(),
    {
        match self.index_of(id) {
            None => {
                proof {
                    assert(updated(self@, id, patch@) =~= self@);
                }
                false
            },
            Some(i) => {
                let ghost old_cards = self@;
                let ghost p = patch@;
                let c = &self.cards[i];
                let name = match patch.name {
                    Some(n) => n,
                    None => c.name.clone(),
                };
                let description = match patch.description {
                    Some(d) => d,
                    None => c.description.clone(),
                };
                let is_editing = match patch.is_editing {
                    Some(e) => e,
                    None => c.is_editing,
                };
                let new_card = Card { id: c.id, name, description, state: c.state, is_editing };
                assert(new_card@ == old_cards[i as int].patched(p));
                self.cards.set(i, new_card);
                proof {
                    assert(self@ =~= updated(old_cards, id, p));
                    assert(self@.len() == old_cards.len());
                    assert forall|k: int| 0 <= k < self@.len() implies self@[k].id == old_cards[k].id by {}
                }
                true
            },
        }
    }

    /// Moves the card `id` to list `state`; returns whether the store holds that
    /// card. An absent card is no error: nothing changes.
    pub fn reassign(&mut self, id: CardId, state: CardState) -> (found: bool)
        requires
            old(self).wf(),
        ensures
            final(self).wf(),
            found == has_id(old(self)@, id),
            final(self)@ == reassigned(old(self)@, id, state),
            final(self).issued() == old(self).issued(),
    {
        match self.index_of(id) {
            None => {
                proof {
                    assert(reassigned(self@, id, state) =~= self@);
                }
                false
            },
            Some(i) => {
                let ghost old_cards = self@;
                let c = &self.cards[i];
                let new_card = Card {
                    id: c.id,
                    name: c.name.clone(),
                    description: c.description.clone(),
                    state,
                    is_editing: c.is_editing,
                };
                self.cards.set(i, new_card);
                proof {
                    assert(self@ =~= reassigned(old_cards, id, state));
                    assert forall|k: int| 0 <= k < self@.len() implies self@[k].id == old_cards[k].id by {}
                }
                true
            },
        }
    }

    /// Removes the card `id`; returns whether the store held it. Removing an
    /// absent card changes nothing.
    pub fn delete(&mut self, id: CardId) -> (found: bool)
        requires
            old(self).wf(),
        ensures
            final(self).wf(),
            found == has_id(old(self)@, id),
            final(self)@ == deleted(old(self)@, id),
            final(self).issued() == old(self).issued(),
    {
        match self.index_of(id) {
            None => {
                proof {
                    lemma_deleted_absent(self@, id);
                }
                false
            },
            Some(i) => {
                let ghost old_cards = self@;
                proof {
                    lemma_deleted_at(old_cards, id, i as int);
                }
                self.cards.remove(i);
                proof {
                    assert(self@ =~= old_cards.remove(i as int));
                }
                true
            },
        }
    }

    /// The cards of list `state`, in store order.
    pub fn list_by_state(&self, state: CardState) -> (r: Vec<Card>)
        ensures
            models(r@) == in_state(self@, state),
    {
        let mut out: Vec<Card> = Vec::new();
        let mut i: usize = 0;
        while i < self.cards.len()
            invariant
                0 <= i <= self.cards@.len(),
                self@.len() == self.cards@.len(),
                models(out@) == in_state(self@.subrange(0, i as int), state),
            decreases self.cards@.len() - i,
        {
            let c = &self.cards[i];
            proof {
                assert(self@.subrange(0, i + 1) =~= self@.subrange(0, i as int).push(c@));
                lemma_in_state_push(self@.subrange(0, i as int), c@, state);
            }
            if c.state == state {
                let ghost before = out@;
                out.push(c.duplicate());
                proof {
                    assert(models(out@) =~= models(before).push(c@));
                }
            }
            i += 1;
        }
        proof {
            assert(self@.subrange(0, self@.len() as int) =~= self@);
        }
        out
    }

    fn was_issued(&self, id: CardId) -> (r: bool)
        ensures
            r == self.issued().contains(id),
    {
        let mut i: usize = 0;
        while i < self.issued.len()
            invariant
                0 <= i <= self.issued@.len(),
                forall|k: int| 0 <= k < i ==> self.issued@[k] != id,
            decreases self.issued@.len() - i,
        {
            if self.issued[i] == id {
                proof {
                    assert(self.issued@.to_set().contains(self.issued@[i as int]));
                }
                return true;
            }
            i += 1;
        }
        false
    }

    /// The position of the card `id`, if the store holds it.
    fn index_of(&self, id: CardId) -> (r: Option<usize>)
        ensures
            match r {
                Some(i) => i < self@.len() && self@[i as int].id == id,
                None => !has_id(self@, id),
            },
    {
        let mut i: usize = 0;
        while i < self.cards.len()
            invariant
                0 <= i <= self.cards@.len(),
                self@.len() == self.cards@.len(),
                forall|k: int| 0 <= k < i ==> self@[k].id != id,
            decreases self.cards@.len() - i,
        {
            if self.cards[i].id == id {
                return Some(i);
            }
            i += 1;
        }
        None
    }
}

/// After the name of a card that the store holds is set to `name`, the lists
/// show that card, and wherever they show it, they show it under `name`.
pub proof fn lemma_update_name_shown(cards: Seq<CardModel>, id: CardId, name: Seq<char>)
    requires
        has_id(cards, id),
    ensures
        ({
            let after = updated(cards, id, PatchModel { name: Some(name), description: None, is_editing: None });
            &&& exists|s: CardState, k: int|
                0 <= k < in_state(after, s).len() && #[trigger] in_state(after, s)[k].id == id
            &&& forall|s: CardState, k: int|
                0 <= k < in_state(after, s).len() && #[trigger] in_state(after, s)[k].id == id
                    ==> in_state(after, s)[k].name == name
        }),
{
    let p = PatchModel { name: Some(name), description: None, is_editing: None };
    let after = updated(cards, id, p);
    let i = choose|i: int| 0 <= i < cards.len() && cards[i].id == id;
    let s0 = after[i].state;
    after.lemma_filter_contains(state_is(s0), i);
    let k0 = choose|k: int| 0 <= k < in_state(after, s0).len() && in_state(after, s0)[k] == after[i];
    assert(in_state(after, s0)[k0].id == id);
    assert forall|s: CardState, k: int|
        0 <= k < in_state(after, s).len() && #[trigger] in_state(after, s)[k].id == id
            implies in_state(after, s)[k].name == name by {
        let x = in_state(after, s)[k];
        assert(in_state(after, s).contains(x));
        after.lemma_filter_contains_rev(state_is(s), x);
        let j = choose|j: int| 0 <= j < after.len() && after[j] == x;
        assert(cards[j].id == id);
    }
}

/// Updating a card that was deleted changes nothing.
pub proof fn lemma_update_after_delete(cards: Seq<CardModel>, id: CardId, p: PatchModel)
    ensures
        updated(deleted(cards, id), id, p) == deleted(cards, id),
{
    let d = deleted(cards, id);
    assert forall|k: int| 0 <= k < d.len() implies d[k].id != id by {
        cards.lemma_filter_pred(id_is_not(id), k);
    }
    assert(updated(d, id, p) =~= d);
}

/// Deleting the same card twice leaves the store as deleting it once.
pub proof fn lemma_delete_twice(cards: Seq<CardModel>, id: CardId)
    ensures
        deleted(deleted(cards, id), id) == deleted(cards, id),
{
    let d = deleted(cards, id);
    assert(!has_id(d, id)) by {
        if has_id(d, id) {
            let k = choose|k: int| 0 <= k < d.len() && d[k].id == id;
            cards.lemma_filter_pred(id_is_not(id), k);
        }
    }
    lemma_deleted_absent(d, id);
}

/// Moving a card from list `from` to another list `to` takes one card off the
/// first list and adds one to the second; the third list and the total are
/// unchanged.
pub proof fn lemma_reassign_moves_one(
    cards: Seq<CardModel>,
    id: CardId,
    from: CardState,
    to: CardState,
)
    requires
        unique_ids(cards),
        exists|i: int| 0 <= i < cards.len() && cards[i].id == id && cards[i].state == from,
        from != to,
    ensures
        reassigned(cards, id, to).len() == cards.len(),
        in_state(reassigned(cards, id, to), from).len() == in_state(cards, from).len() - 1,
        in_state(reassigned(cards, id, to), to).len() == in_state(cards, to).len() + 1,
        forall|s: CardState|
            s != from && s != to ==> #[trigger] in_state(reassigned(cards, id, to), s).len()
                == in_state(cards, s).len(),
    decreases cards.len(),
{
    let i = choose|i: int| 0 <= i < cards.len() && cards[i].id == id && cards[i].state == from;
    let rest = cards.drop_last();
    let last = cards.last();
    let after = reassigned(cards, id, to);
    assert(after.drop_last() =~= reassigned(rest, id, to));
    assert(after =~= after.drop_last().push(after.last()));
    assert(cards =~= rest.push(last));
    assert forall|s: CardState| true implies {
        &&& #[trigger] in_state(after, s) == if after.last().state == s {
            in_state(after.drop_last(), s).push(after.last())
        } else {
            in_state(after.drop_last(), s)
        }
        &&& in_state(cards, s) == if last.state == s {
            in_state(rest, s).push(last)
        } else {
            in_state(rest, s)
        }
    } by {
        lemma_in_state_push(after.drop_last(), after.last(), s);
        lemma_in_state_push(rest, last, s);
    }
    if i == cards.len() - 1 {
        assert(reassigned(rest, id, to) =~= rest) by {
            assert forall|k: int| 0 <= k < rest.len() implies rest[k].id != id by {
                assert(cards[k].id != cards[i].id);
            }
        }
    } else {
        assert(rest[i].id == id);
        lemma_reassign_moves_one(rest, id, from, to);
        assert(last.id != id) by {
            assert(cards[i].id != cards[cards.len() - 1].id);
        }
    }
}

/// Creating a card under an identifier that no card holds adds one card,
/// open for editing, to list `s`: that list shows it last, the other lists are
/// unchanged, and no other card holds its identifier.
pub proof fn lemma_create_adds_one(cards: Seq<CardModel>, id: CardId, s: CardState)
    requires
        !has_id(cards, id),
    ensures
        ({
            let after = cards.push(CardModel::fresh(id, s));
            &&& after.last().state == s
            &&& after.last().is_editing
            &&& in_state(after, s) == in_state(cards, s).push(CardModel::fresh(id, s))
            &&& forall|t: CardState| t != s ==> #[trigger] in_state(after, t) == in_state(cards, t)
            &&& forall|i: int| 0 <= i < after.len() && #[trigger] after[i].id == id ==> i == cards.len()
        }),
{
    let c = CardModel::fresh(id, s);
    lemma_in_state_push(cards, c, s);
    assert forall|t: CardState| t != s implies #[trigger] in_state(cards.push(c), t) == in_state(cards, t) by {
        lemma_in_state_push(cards, c, t);
    }
    assert forall|i: int| 0 <= i < cards.push(c).len() && #[trigger] cards.push(c)[i].id == id implies i
        == cards.len() by {
        if i < cards.len() {
            assert(cards[i].id == id);
        }
    }
}

proof fn lemma_in_state_push(cards: Seq<CardModel>, c: CardModel, s: CardState)
    ensures
        in_state(cards.push(c), s) == if c.state == s {
            in_state(cards, s).push(c)
        } else {
            in_state(cards, s)
        },
{
    reveal_with_fuel(Seq::filter, 1);
    assert(cards.push(c).drop_last() =~= cards);
}

proof fn lemma_deleted_absent(cards: Seq<CardModel>, id: CardId)
    requires
        !has_id(cards, id),
    ensures
        deleted(cards, id) == cards,
    decreases cards.len(),
{
    if cards.len() > 0 {
        let rest = cards.drop_last();
        assert(!has_id(rest, id)) by {
            if has_id(rest, id) {
                let k = choose|k: int| 0 <= k < rest.len() && rest[k].id == id;
                assert(cards[k].id == id);
            }
        }
        lemma_deleted_absent(rest, id);
        reveal_with_fuel(Seq::filter, 1);
        assert(cards.last().id != id);
        assert(rest.push(cards.last()) =~= cards);
    }
}

proof fn lemma_deleted_at(cards: Seq<CardModel>, id: CardId, i: int)
    requires
        unique_ids(cards),
        0 <= i < cards.len(),
        cards[i].id == id,
    ensures
        deleted(cards, id) == cards.remove(i),
    decreases cards.len(),
{
    let rest = cards.drop_last();
    reveal_with_fuel(Seq::filter, 1);
    if i == cards.len() - 1 {
        assert(!has_id(rest, id)) by {
            if has_id(rest, id) {
                let k = choose|k: int| 0 <= k < rest.len() && rest[k].id == id;
                assert(cards[k].id == id);
            }
        }
        lemma_deleted_absent(rest, id);
        assert(rest =~= cards.remove(i));
    } else {
        lemma_deleted_at(rest, id, i);
        assert(cards.last().id != id);
        assert(rest.remove(i).push(cards.last()) =~= cards.remove(i));
    }
}

} // verus!
