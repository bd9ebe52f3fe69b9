use kanban::{Card, CardId, CardPatch, CardState, CardStore};

fn id(v: u128) -> CardId {
    CardId::from_u128(v)
}

fn names(cards: &[Card]) -> Vec<String> {
    cards.iter().map(|c| c.name.clone()).collect()
}

fn total(store: &CardStore) -> usize {
    store.list_by_state(CardState::Todo).len()
        + store.list_by_state(CardState::InProgress).len()
        + store.list_by_state(CardState::Done).len()
}

#[test]
fn create_opens_card_for_editing_in_its_list() {
    let mut store = CardStore::new();
    assert!(store.create_with_id(id(1), CardState::Todo));
    let before = store.list_by_state(CardState::InProgress).len();
    assert!(store.create_with_id(id(2), CardState::InProgress));
    let list = store.list_by_state(CardState::InProgress);
    assert_eq!(list.len(), before + 1);
    let card = &list[list.len() - 1];
    assert_eq!(card.id, id(2));
    assert_eq!(card.state, CardState::InProgress);
    assert!(card.is_editing);
    assert_eq!(card.name, "");
    assert_eq!(card.description, "");
}

#[test]
fn create_draws_distinct_identifiers() {
    let mut store = CardStore::new();
    let a = store.create(CardState::Done).expect("fresh identifier");
    let b = store.create(CardState::Done).expect("fresh identifier");
    assert_ne!(a, b);
    let done = store.list_by_state(CardState::Done);
    assert_eq!(done.len(), 2);
    assert_eq!(done[0].id, a);
    assert_eq!(done[1].id, b);
    assert!(done[0].is_editing && done[1].is_editing);
}

#[test]
fn identifier_is_never_reused_after_delete() {
    let mut store = CardStore::new();
    assert!(store.create_with_id(id(7), CardState::Todo));
    assert!(!store.create_with_id(id(7), CardState::Done));
    assert!(store.delete(id(7)));
    assert!(!store.create_with_id(id(7), CardState::Todo));
    assert_eq!(total(&store), 0);
}

#[test]
fn update_name_is_shown_by_list() {
    let mut store = CardStore::new();
    assert!(store.create_with_id(id(1), CardState::Todo));
    assert!(store.create_with_id(id(2), CardState::Done));
    assert!(store.update(id(2), CardPatch::rename("X".to_string())));
    let done = store.list_by_state(CardState::Done);
    assert_eq!(names(&done), vec!["X".to_string()]);
    assert!(done[0].is_editing);
    let todo = store.list_by_state(CardState::Todo);
    assert_eq!(names(&todo), vec!["".to_string()]);
}

#[test]
fn update_of_missing_card_changes_nothing() {
    let mut store = CardStore::new();
    assert!(store.create_with_id(id(1), CardState::Todo));
    assert!(!store.update(id(9), CardPatch::rename("X".to_string())));
    assert_eq!(total(&store), 1);
    assert_eq!(store.list_by_state(CardState::Todo)[0].name, "");
}

#[test]
fn save_and_discard_patches() {
    let mut store = CardStore::new();
    assert!(store.create_with_id(id(1), CardState::Todo));
    assert!(store.update(id(1), CardPatch::save("Shop".to_string(), "milk".to_string())));
    let c = &store.list_by_state(CardState::Todo)[0];
    assert_eq!((c.name.as_str(), c.description.as_str(), c.is_editing), ("Shop", "milk", false));
    assert!(store.update(id(1), CardPatch::start_editing()));
    assert!(store.list_by_state(CardState::Todo)[0].is_editing);
    assert!(store.update(id(1), CardPatch::discard()));
    let c = &store.list_by_state(CardState::Todo)[0];
    assert_eq!((c.name.as_str(), c.description.as_str(), c.is_editing), ("Shop", "milk", false));
}

#[test]
fn delete_twice_changes_nothing_the_second_time() {
    let mut store = CardStore::new();
    assert!(store.create_with_id(id(1), CardState::Todo));
    assert!(store.create_with_id(id(2), CardState::Todo));
    assert!(store.delete(id(1)));
    let after_once = names(&store.list_by_state(CardState::Todo));
    assert!(!store.delete(id(1)));
    assert_eq!(names(&store.list_by_state(CardState::Todo)), after_once);
    assert_eq!(store.list_by_state(CardState::Todo)[0].id, id(2));
}

#[test]
fn reassign_moves_exactly_one_card() {
    let mut store = CardStore::new();
    assert!(store.create_with_id(id(1), CardState::Todo));
    assert!(store.create_with_id(id(2), CardState::Todo));
    assert!(store.create_with_id(id(3), CardState::Done));
    assert!(store.reassign(id(1), CardState::InProgress));
    assert_eq!(store.list_by_state(CardState::Todo).len(), 1);
    assert_eq!(store.list_by_state(CardState::InProgress).len(), 1);
    assert_eq!(store.list_by_state(CardState::Done).len(), 1);
    assert_eq!(total(&store), 3);
    assert_eq!(store.list_by_state(CardState::InProgress)[0].id, id(1));
}

#[test]
fn reassign_of_missing_card_changes_nothing() {
    let mut store = CardStore::new();
    assert!(store.create_with_id(id(1), CardState::Todo));
    assert!(!store.reassign(id(5), CardState::Done));
    assert_eq!(store.list_by_state(CardState::Todo).len(), 1);
    assert_eq!(store.list_by_state(CardState::Done).len(), 0);
}

#[test]
fn list_keeps_insertion_order() {
    let mut store = CardStore::new();
    for (k, s) in [CardState::Done, CardState::Todo, CardState::Done, CardState::Done]
        .into_iter()
        .enumerate()
    {
        assert!(store.create_with_id(id(k as u128 + 10), s));
    }
    let done: Vec<CardId> = store.list_by_state(CardState::Done).iter().map(|c| c.id).collect();
    assert_eq!(done, vec![id(10), id(12), id(13)]);
    assert!(store.reassign(id(11), CardState::Done));
    let done: Vec<CardId> = store.list_by_state(CardState::Done).iter().map(|c| c.id).collect();
    assert_eq!(done, vec![id(10), id(11), id(12), id(13)]);
}

#[test]
fn groceries_moved_to_done() {
    let mut store = CardStore::new();
    assert!(store.insert(Card {
        id: id(42),
        name: "Groceries".to_string(),
        description: String::new(),
        state: CardState::Todo,
        is_editing: false,
    }));
    assert!(store.reassign(id(42), CardState::Done));
    assert!(store.list_by_state(CardState::Todo).is_empty());
    let done = store.list_by_state(CardState::Done);
    assert_eq!(done.len(), 1);
    assert_eq!(done[0].name, "Groceries");
}

#[test]
fn stale_update_after_create_and_delete() {
    let mut store = CardStore::with_dummy_data();
    let original = total(&store);
    let new_id = store.create(CardState::Todo).expect("fresh identifier");
    assert_eq!(total(&store), original + 1);
    assert!(store.delete(new_id));
    assert!(!store.update(new_id, CardPatch::save("late".to_string(), "edit".to_string())));
    assert_eq!(total(&store), original);
    let all: Vec<Card> = [CardState::Todo, CardState::InProgress, CardState::Done]
        .into_iter()
        .flat_map(|s| store.list_by_state(s))
        .collect();
    assert!(all.iter().all(|c| c.id != new_id && c.name != "late"));
}

#[test]
fn dummy_data_fills_the_three_lists() {
    let store = CardStore::with_dummy_data();
    let todo = store.list_by_state(CardState::Todo);
    let doing = store.list_by_state(CardState::InProgress);
    let done = store.list_by_state(CardState::Done);
    assert_eq!(names(&todo), vec!["Groceries", "Laundry", "Dishes"]);
    assert_eq!(names(&doing), vec!["Homework", "Project"]);
    assert_eq!(names(&done), vec!["Dinner", "Clean"]);
    assert_eq!(todo[0].description, "Buy groceries for the week and also some other goodies");
    assert_eq!(done[1].description, "Clean the house");
    assert!(todo.iter().chain(doing.iter()).chain(done.iter()).all(|c| !c.is_editing));
    let mut ids: Vec<u128> =
        todo.iter().chain(doing.iter()).chain(done.iter()).map(|c| c.id.as_u128()).collect();
    ids.sort();
    ids.dedup();
    assert_eq!(ids.len(), 7);
}

#[test]
fn card_state_defaults_to_todo() {
    assert_eq!(CardState::default(), CardState::Todo);
}

fn seven_ids() -> Vec<CardId> {
    (1..=7).map(|v| id(v)).collect()
}

#[test]
fn seeded_places_starting_cards_under_given_ids() {
    let store = CardStore::seeded(seven_ids());
    let todo = store.list_by_state(CardState::Todo);
    let doing = store.list_by_state(CardState::InProgress);
    let done = store.list_by_state(CardState::Done);
    let ids: Vec<CardId> = todo.iter().chain(doing.iter()).chain(done.iter()).map(|c| c.id).collect();
    assert_eq!(ids, seven_ids());
    assert_eq!(names(&doing), vec!["Homework", "Project"]);
    let descriptions: Vec<&str> = todo
        .iter()
        .chain(doing.iter())
        .chain(done.iter())
        .map(|c| c.description.as_str())
        .collect();
    assert_eq!(
        descriptions,
        vec![
            "Buy groceries for the week and also some other goodies",
            "Do laundry",
            "Do the dishes",
            "Finish homework",
            "Work on project",
            "Make dinner",
            "Clean the house",
        ]
    );
}

#[test]
fn seeded_leaves_out_a_repeated_id() {
    let mut ids = seven_ids();
    ids[4] = id(2);
    let store = CardStore::seeded(ids);
    assert_eq!(total(&store), 6);
    assert_eq!(names(&store.list_by_state(CardState::InProgress)), vec!["Homework"]);
    assert_eq!(store.list_by_state(CardState::Todo)[0].name, "Groceries");
}

#[test]
fn create_on_starting_data_adds_an_eighth_card() {
    let mut store = CardStore::seeded(seven_ids());
    assert!(store.create_with_id(id(8), CardState::Todo));
    let todo = store.list_by_state(CardState::Todo);
    assert_eq!(total(&store), 8);
    assert_eq!(todo.len(), 4);
    assert_eq!(store.list_by_state(CardState::InProgress).len(), 2);
    assert_eq!(store.list_by_state(CardState::Done).len(), 2);
    assert_eq!(todo[3].id, id(8));
    assert!(todo[3].is_editing);
    assert_eq!(todo[3].name, "");
}

#[test]
fn create_succeeds_on_a_new_store() {
    let mut store = CardStore::new();
    let new_id = store.create(CardState::InProgress).expect("nothing issued yet");
    let doing = store.list_by_state(CardState::InProgress);
    assert_eq!(doing.len(), 1);
    assert_eq!(doing[0].id, new_id);
}
