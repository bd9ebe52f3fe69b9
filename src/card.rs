//! Cards, their identifiers and partial updates.
use vstd::prelude::*;

verus! {

/// The list a card belongs to.
#[derive(Clone, Copy, Debug, PartialEq, Eq, Structural)]
pub enum CardState {
    Todo,
    InProgress,
    Done,
}

impl Default for CardState {
    fn default() -> (r: CardState)
        ensures
            r == CardState::Todo,
    {
        CardState::Todo
    }
}

/// An opaque, unique card identifier: the 128 bits of a UUID.
#[derive(Clone, Copy, Debug, PartialEq, Eq, Structural, Hash)]
pub struct CardId {
    pub value: u128,
}

impl CardId {
    pub fn from_u128(value: u128) -> (r: CardId)
        ensures
            r.value == value,
    {
        CardId { value }
    }

    pub fn as_u128(&self) -> (r: u128)
        ensures
            r == self.value,
    {
        self.value
    }
}

/// Relies on uuid::Uuid::new_v4 (and Uuid::as_u128) for a random identifier.
/// Nothing is promised of its value.
#[verifier::external_body]
pub(crate) fn new_id() -> (r: CardId) {
    CardId { value: uuid::Uuid::new_v4().as_u128() }
}

/// A card as the store holds it.
#[derive(Debug)]
pub struct Card {
    pub id: CardId,
    pub name: String,
    pub description: String,
    pub state: CardState,
    pub is_editing: bool,
}

/// The mathematical value of a card.
pub ghost struct CardModel {
    pub id: CardId,
    pub name: Seq<char>,
    pub description: Seq<char>,
    pub state: CardState,
    pub is_editing: bool,
}

impl View for Card {
    type V = CardModel;

    open spec fn view(&self) -> CardModel {
        CardModel {
            id: self.id,
            name: self.name@,
            description: self.description@,
            state: self.state,
            is_editing: self.is_editing,
        }
    }
}

impl Card {
    /// A fresh card in `state`: empty name and description, open for editing.
    pub fn new(id: CardId, state: CardState) -> (r: Card)
        ensures
            r@ == CardModel::fresh(id, state),
    {
        Card { id, name: String::new(), description: String::new(), state, is_editing: true }
    }

    /// A field-by-field copy.
    pub fn duplicate(&self) -> (r: Card)
        ensures
            r@ == self@,
    {
        Card {
            id: self.id,
            name: self.name.clone(),
            description: self.description.clone(),
            state: self.state,
            is_editing: self.is_editing,
        }
    }
}

impl CardModel {
    pub open spec fn fresh(id: CardId, state: CardState) -> CardModel {
        CardModel {
            id,
            name: Seq::empty(),
            description: Seq::empty(),
            state,
            is_editing: true,
        }
    }

    /// This card with the fields that `p` sets replaced.
    pub open spec fn patched(self, p: PatchModel) -> CardModel {
        CardModel {
            name: match p.name {
                Some(n) => n,
                None => self.name,
            },
            description: match p.description {
                Some(d) => d,
                None => self.description,
            },
            is_editing: match p.is_editing {
                Some(e) => e,
                None => self.is_editing,
            },
            ..self
        }
    }

    /// This card moved to list `s`.
    pub open spec fn moved(self, s: CardState) -> CardModel {
        CardModel { state: s, ..self }
    }
}

/// A partial update of a card's editable fields; `None` leaves a field as it is.
#[derive(Debug)]
pub struct CardPatch {
    pub name: Option<String>,
    pub description: Option<String>,
    pub is_editing: Option<bool>,
}

pub ghost struct PatchModel {
    pub name: Option<Seq<char>>,
    pub description: Option<Seq<char>>,
    pub is_editing: Option<bool>,
}

impl View for CardPatch {
    type V = PatchModel;

    open spec fn view(&self) -> PatchModel {
        PatchModel {
            name: match &self.name {
                Some(n) => Some(n@),
                None => None,
            },
            description: match &self.description {
                Some(d) => Some(d@),
                None => None,
            },
            is_editing: self.is_editing,
        }
    }
}

impl CardPatch {
    /// Saving an edit: the new name and description, and editing ends.
    pub fn save(name: String, description: String) -> (r: CardPatch)
        ensures
            r@ == (PatchModel {
                name: Some(name@),
                description: Some(description@),
                is_editing: Some(false),
            }),
    {
        CardPatch { name: Some(name), description: Some(description), is_editing: Some(false) }
    }

    /// Discarding an edit: only editing ends.
    pub fn discard() -> (r: CardPatch)
        ensures
            r@ == (PatchModel { name: None, description: None, is_editing: Some(false) }),
    {
        CardPatch { name: None, description: None, is_editing: Some(false) }
    }

    /// Opening a card for editing.
    pub fn start_editing() -> (r: CardPatch)
        ensures
            r@ == (PatchModel { name: None, description: None, is_editing: Some(true) }),
    {
        CardPatch { name: None, description: None, is_editing: Some(true) }
    }

    /// Setting the name alone.
    pub fn rename(name: String) -> (r: CardPatch)
        ensures
            r@ == (PatchModel { name: Some(name@), description: None, is_editing: None }),
    {
        CardPatch { name: Some(name), description: None, is_editing: None }
    }
}

} // verus!
