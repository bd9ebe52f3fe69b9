//! The fixed set of cards that a board starts with.
use vstd::prelude::*;

use crate::card::{new_id, Card, CardId, CardModel, CardState};
use crate::store::CardStore;

verus! {

/// Name, description and list of the `k`-th starting card.
pub open spec fn dummy_entry(k: int) -> (Seq<char>, Seq<char>, CardState) {
    if k == 0 {
        ("Groceries"@, "Buy groceries for the week and also some other goodies"@, CardState::Todo)
    } else if k == 1 {
        ("Laundry"@, "Do laundry"@, CardState::Todo)
    } else if k == 2 {
        ("Dishes"@, "Do the dishes"@, CardState::Todo)
    } else if k == 3 {
        ("Homework"@, "Finish homework"@, CardState::InProgress)
    } else if k == 4 {
        ("Project"@, "Work on project"@, CardState::InProgress)
    } else if k == 5 {
        ("Dinner"@, "Make dinner"@, CardState::Done)
    } else {
        ("Clean"@, "Clean the house"@, CardState::Done)
    }
}

pub open spec fn dummy_count() -> nat {
    7
}

pub open spec fn shows_entry(c: CardModel, e: (Seq<char>, Seq<char>, CardState)) -> bool {
    c.name == e.0 && c.description == e.1 && c.state == e.2 && !c.is_editing
}

/// The `k`-th starting card under identifier `id`.
pub open spec fn seed_card(id: CardId, k: int) -> CardModel {
    CardModel {
        id,
        name: dummy_entry(k).0,
        description: dummy_entry(k).1,
        state: dummy_entry(k).2,
        is_editing: false,
    }
}

pub open spec fn pairwise_distinct(ids: Seq<CardId>) -> bool {
    forall|i: int, j: int| 0 <= i < j < ids.len() ==> ids[i] != ids[j]
}

/// Adds a card that is not being edited under `id`, unless `id` was ever
/// issued before; returns whether it was added.
fn add_seeded(store: &mut CardStore, id: CardId, name: &str, description: &str, state: CardState) -> (added: bool)
    requires
        old(store).wf(),
    ensures
        final(store).wf(),
        added == !old(store).issued().contains(id),
        added ==> final(store)@ == old(store)@.push(
            CardModel { id, name: name@, description: description@, state, is_editing: false },
        ),
        added ==> final(store).issued() == old(store).issued().insert(id),
        !added ==> final(store)@ == old(store)@,
        !added ==> final(store).issued() == old(store).issued(),
{
    let card = Card {
        id,
        name: name.to_string(),
        description: description.to_string(),
        state,
        is_editing: false,
    };
    store.insert(card)
}

/// One step of filling the store: `b` is `a` with the `k`-th starting card
/// under `id` appended, or `a` itself when `id` was issued before.
pub open spec fn seed_step(
    a: Seq<CardModel>,
    ia: Set<CardId>,
    b: Seq<CardModel>,
    ib: Set<CardId>,
    id: CardId,
    k: int,
) -> bool {
    if ia.contains(id) {
        b == a && ib == ia
    } else {
        b == a.push(seed_card(id, k)) && ib == ia.insert(id)
    }
}

proof fn lemma_seed_step(
    a: Seq<CardModel>,
    ia: Set<CardId>,
    b: Seq<CardModel>,
    ib: Set<CardId>,
    ids: Seq<CardId>,
    k: int,
)
    requires
        0 <= k < ids.len(),
        seed_step(a, ia, b, ib, ids[k], k),
        a.len() <= k,
        forall|j: int| 0 <= j < k ==> ia.contains(ids[j]),
        forall|j: int| 0 <= j < a.len() ==> !(#[trigger] a[j]).is_editing,
    ensures
        b.len() <= k + 1,
        b.len() == k + 1 <==> (a.len() == k && !ia.contains(ids[k])),
        forall|j: int| 0 <= j <= k ==> ib.contains(ids[j]),
        forall|j: int| 0 <= j < b.len() ==> !(#[trigger] b[j]).is_editing,
        forall|j: int| 0 <= j < a.len() ==> b[j] == a[j],
{
}

impl CardStore {
    /// A store holding the starting cards, none of them being edited, under the
    /// identifiers `ids` in turn. A card whose identifier repeats an earlier one
    /// is left out; the first card is always there. The store holds all seven
    /// exactly when the identifiers are pairwise distinct, and then the `k`-th
    /// card is the `k`-th starting card under `ids[k]`.
    pub fn seeded(ids: Vec<CardId>) -> (r: CardStore)
        requires
            ids@.len() == dummy_count(),
        ensures
            r.wf(),
            1 <= r@.len() <= dummy_count(),
            r@[0] == seed_card(ids@[0], 0),
            forall|k: int| 0 <= k < r@.len() ==> !(#[trigger] r@[k]).is_editing,
            r@.len() == dummy_count() <==> pairwise_distinct(ids@),
            pairwise_distinct(ids@) ==> forall|k: int|
                0 <= k < dummy_count() ==> #[trigger] r@[k] == seed_card(ids@[k], k),
    {
        let mut store = CardStore::new();
        let ghost s0 = store@;
        let ghost i0 = store.issued();
        add_seeded(
            &mut store,
            ids[0],
            "Groceries",
            "Buy groceries for the week and also some other goodies",
            CardState::Todo,
        );
        let ghost s1 = store@;
        let ghost i1 = store.issued();
        add_seeded(&mut store, ids[1], "Laundry", "Do laundry", CardState::Todo);
        let ghost s2 = store@;
        let ghost i2 = store.issued();
        add_seeded(&mut store, ids[2], "Dishes", "Do the dishes", CardState::Todo);
        let ghost s3 = store@;
        let ghost i3 = store.issued();
        add_seeded(&mut store, ids[3], "Homework", "Finish homework", CardState::InProgress);
        let ghost s4 = store@;
        let ghost i4 = store.issued();
        add_seeded(&mut store, ids[4], "Project", "Work on project", CardState::InProgress);
        let ghost s5 = store@;
        let ghost i5 = store.issued();
        add_seeded(&mut store, ids[5], "Dinner", "Make dinner", CardState::Done);
        let ghost s6 = store@;
        let ghost i6 = store.issued();
        add_seeded(&mut store, ids[6], "Clean", "Clean the house", CardState::Done);
        let ghost s7 = store@;
        let ghost i7 = store.issued();
        proof {
            let v = ids@;
            assert(seed_step(s0, i0, s1, i1, v[0], 0));
            assert(seed_step(s1, i1, s2, i2, v[1], 1));
            assert(seed_step(s2, i2, s3, i3, v[2], 2));
            assert(seed_step(s3, i3, s4, i4, v[3], 3));
            assert(seed_step(s4, i4, s5, i5, v[4], 4));
            assert(seed_step(s5, i5, s6, i6, v[5], 5));
            assert(seed_step(s6, i6, s7, i7, v[6], 6));
            lemma_seed_step(s0, i0, s1, i1, v, 0);
            lemma_seed_step(s1, i1, s2, i2, v, 1);
            lemma_seed_step(s2, i2, s3, i3, v, 2);
            lemma_seed_step(s3, i3, s4, i4, v, 3);
            lemma_seed_step(s4, i4, s5, i5, v, 4);
            lemma_seed_step(s5, i5, s6, i6, v, 5);
            lemma_seed_step(s6, i6, s7, i7, v, 6);
            assert(s7[0] == s1[0]);
            if pairwise_distinct(v) {
                assert(!i1.contains(v[1]));
                assert(!i2.contains(v[2]));
                assert(!i3.contains(v[3]));
                assert(!i4.contains(v[4]));
                assert(!i5.contains(v[5]));
                assert(!i6.contains(v[6]));
                assert forall|k: int| 0 <= k < 7 implies #[trigger] s7[k] == seed_card(v[k], k) by {
                    if k == 1 {
                        assert(s7[k] == s2[k]);
                    } else if k == 2 {
                        assert(s7[k] == s3[k]);
                    } else if k == 3 {
                        assert(s7[k] == s4[k]);
                    } else if k == 4 {
                        assert(s7[k] == s5[k]);
                    } else if k == 5 {
                        assert(s7[k] == s6[k]);
                    }
                }
            }
            if s7.len() == 7 {
                assert forall|i: int, j: int| 0 <= i < j < v.len() implies v[i] != v[j] by {
                    if j == 1 {
                        assert(!i1.contains(v[1]));
                    } else if j == 2 {
                        assert(!i2.contains(v[2]));
                    } else if j == 3 {
                        assert(!i3.contains(v[3]));
                    } else if j == 4 {
                        assert(!i4.contains(v[4]));
                    } else if j == 5 {
                        assert(!i5.contains(v[5]));
                    } else if j == 6 {
                        assert(!i6.contains(v[6]));
                    }
                }
            }
        }
        store
    }

    /// A store holding the starting cards under newly drawn identifiers; see
    /// `seeded`. The first starting card is always there; the others are too
    /// unless a draw repeats an identifier.
    pub fn with_dummy_data() -> (r: CardStore)
        ensures
            r.wf(),
            1 <= r@.len() <= dummy_count(),
            shows_entry(r@[0], dummy_entry(0)),
            forall|k: int| 0 <= k < r@.len() ==> !(#[trigger] r@[k]).is_editing,
            r@.len() == dummy_count() ==> forall|k: int|
                0 <= k < dummy_count() ==> shows_entry(#[trigger] r@[k], dummy_entry(k)),
    {
        let mut ids: Vec<CardId> = Vec::new();
        let mut k: usize = 0;
        while k < 7
            invariant
                0 <= k <= 7,
                ids@.len() == k,
            decreases 7 - k,
        {
            ids.push(new_id());
            k += 1;
        }
        CardStore::seeded(ids)
    }
}

} // verus!
