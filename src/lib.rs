//! A kanban board: cards kept in three lists, edited in place and moved
//! between lists by drag and drop.
//!
//! The card store, the drag session, the per-list hover flags and the drop
//! resolver are verified; rendering and pointer plumbing live outside.
pub mod board;
pub mod card;
pub mod drag;
pub mod seed;
pub mod hover;
pub mod store;

pub use board::Board;
pub use card::{Card, CardId, CardModel, CardPatch, CardState, PatchModel};
pub use drag::{DragPhase, DragTracker, Point};
pub use hover::{resolve_drop, HoverState, Reassignment};
pub use store::CardStore;
