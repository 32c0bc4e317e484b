//! What the player can do: the events that drive a game.

use vstd::prelude::*;

verus! {

/// One input of the player.
#[derive(Clone, Copy, PartialEq, Eq, Structural, Debug)]
pub enum Event {
    /// Among the slots: to the slot before. Among the dice: to the right.
    MoveCursorUp,
    /// Among the slots: to the slot after. Among the dice: to the left.
    MoveCursorDown,
    /// Among the slots: to the slot before. Among the dice: to the left.
    MoveCursorLeft,
    /// Among the slots: to the slot after. Among the dice: to the right.
    MoveCursorRight,
    /// Lock or free the die with this index, counted from 0.
    ToggleKeep(usize),
    /// Roll the dice, or place the hand in the slot under the cursor.
    Confirm,
    /// Strike the slot under the cursor, whose category does not apply to
    /// the hand.
    StrikeSlot,
    /// Leave the game.
    Cancel,
}

} // verus!
