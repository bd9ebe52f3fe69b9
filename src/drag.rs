//! The drag session: at most one card is dragged at a time.
use vstd::prelude::*;

use crate::card::CardId;

verus! {

/// A pointer position in whole pixels.
#[derive(Clone, Copy, Debug, PartialEq, Eq, Structural)]
pub struct Point {
    pub x: i32,
    pub y: i32,
}

#[derive(Clone, Copy, Debug, PartialEq, Eq, Structural)]
pub enum DragPhase {
    Idle,
    /// The pointer went down on the card's own surface at `start`, `grab` being
    /// where the card was taken, relative to its corner; not moved far enough yet.
    Pressed { card: CardId, start: Point, grab: Point },
    /// The card follows the pointer, last seen at `pointer`.
    Dragging { card: CardId, grab: Point, pointer: Point },
}

/// Tracks the one drag gesture in progress. A press turns into a drag once
/// the pointer moves more than `threshold` pixels along either axis.
#[derive(Clone, Copy, Debug)]
pub struct DragTracker {
    pub threshold: u32,
    pub phase: DragPhase,
}

pub open spec fn abs_diff(a: i32, b: i32) -> int {
    if a >= b {
        a - b
    } else {
        b - a
    }
}

pub open spec fn past_threshold(start: Point, p: Point, threshold: u32) -> bool {
    abs_diff(start.x, p.x) > threshold || abs_diff(start.y, p.y) > threshold
}

impl DragTracker {
    pub open spec fn after_press(self, card: CardId, pointer: Point, grab: Point, on_surface: bool) -> DragPhase {
        if self.phase == DragPhase::Idle && on_surface {
            DragPhase::Pressed { card, start: pointer, grab }
        } else {
            self.phase
        }
    }

    pub open spec fn after_move(self, p: Point) -> DragPhase {
        match self.phase {
            DragPhase::Idle => DragPhase::Idle,
            DragPhase::Pressed { card, start, grab } => if past_threshold(start, p, self.threshold) {
                DragPhase::Dragging { card, grab, pointer: p }
            } else {
                self.phase
            },
            DragPhase::Dragging { card, grab, pointer } => DragPhase::Dragging { card, grab, pointer: p },
        }
    }

    /// The card whose drag a release ends, if a drag is in progress.
    pub open spec fn dragged(self) -> Option<CardId> {
        match self.phase {
            DragPhase::Dragging { card, .. } => Some(card),
            _ => None,
        }
    }

    pub fn new(threshold: u32) -> (r: DragTracker)
        ensures
            r.threshold == threshold,
            r.phase == DragPhase::Idle,
    {
        DragTracker { threshold, phase: DragPhase::Idle }
    }

    /// The pointer goes down on `card`. Only a press on the card's own surface,
    /// not on one of its controls, and only while no gesture is in progress,
    /// arms a drag; returns whether it did.
    pub fn press(&mut self, card: CardId, pointer: Point, grab: Point, on_surface: bool) -> (armed: bool)
        ensures
            final(self).threshold == old(self).threshold,
            final(self).phase == old(self).after_press(card, pointer, grab, on_surface),
            armed == (old(self).phase == DragPhase::Idle && on_surface),
    {
        if on_surface {
            if let DragPhase::Idle = self.phase {
                self.phase = DragPhase::Pressed { card, start: pointer, grab };
                return true;
            }
        }
        false
    }

    /// The pointer moves to `p`; returns whether a card is being dragged.
    pub fn pointer_move(&mut self, p: Point) -> (dragging: bool)
        ensures
            final(self).threshold == old(self).threshold,
            final(self).phase == old(self).after_move(p),
            dragging == final(self).dragged().is_some(),
    {
        match self.phase {
            DragPhase::Idle => false,
            DragPhase::Pressed { card, start, grab } => {
                let dx: i64 = p.x as i64 - start.x as i64;
                let dy: i64 = p.y as i64 - start.y as i64;
                let t: i64 = self.threshold as i64;
                if dx > t || dx < -t || dy > t || dy < -t {
                    self.phase = DragPhase::Dragging { card, grab, pointer: p };
                    true
                } else {
                    false
                }
            },
            DragPhase::Dragging { card, grab, .. } => {
                self.phase = DragPhase::Dragging { card, grab, pointer: p };
                true
            },
        }
    }

    /// The pointer is released: the gesture ends whatever its outcome. Returns
    /// the card whose drag ended, if the press had turned into a drag.
    pub fn release(&mut self) -> (ended: Option<CardId>)
        ensures
            final(self).threshold == old(self).threshold,
            final(self).phase == DragPhase::Idle,
            ended == old(self).dragged(),
    {
        let ended = match self.phase {
            DragPhase::Dragging { card, .. } => Some(card),
            _ => None,
        };
        self.phase = DragPhase::Idle;
        ended
    }
}

} // verus!
