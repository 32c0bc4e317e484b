//! The hand: five dice, and which of them are kept from one roll to the
//! next.

use crate::event::Event;
use crate::rules::valid_hand;
use crate::text::{append_blanks, blanks};
use rand::Rng;
use vstd::prelude::*;

verus! {

/// How a step of choosing dice ended.
#[derive(Clone, Copy, PartialEq, Eq, Structural, Debug)]
pub enum DiceSelectStatus {
    /// The player is done choosing: roll again.
    Complete,
    /// The player leaves the game.
    Exit,
    /// The player goes on choosing.
    Incomplete,
}

/// Five dice. `current` holds the faces, 0 for a die that was never rolled;
/// `keep` holds for each die whether it is locked.
#[derive(Clone, Copy, Debug)]
pub struct Dice {
    pub current: [usize; 5],
    pub keep: [bool; 5],
}

/// Draws a number: calls `Rng::gen_range` on `rand::thread_rng()` with the
/// two bounds. `gen_range` returns a value that is no less than its first
/// bound and less than its second, and it panics on bounds that are not in
/// that order. Nothing is claimed of which value it is.
#[verifier::external_body]
fn random_between(low: usize, high: usize) -> (drawn: usize)
    requires
        low < high,
    ensures
        low <= drawn < high,
{
    rand::thread_rng().gen_range(low, high)
}

/// Draws a face, one of 1 to 6.
fn random_face() -> (face: usize)
    ensures
        1 <= face <= 6,
{
    random_between(1, 7)
}

/// The faces after a roll that brings `faces`: a kept die stays, every
/// other die takes its new face.
pub open spec fn roll_faces(current: Seq<usize>, keep: Seq<bool>, faces: Seq<usize>) -> Seq<usize> {
    Seq::new(5, |i: int| if keep[i] { current[i] } else { faces[i] })
}

/// Whether every die is kept.
pub open spec fn every_kept(keep: Seq<bool>) -> bool {
    forall|i: int| 0 <= i < 5 ==> #[trigger] keep[i]
}

/// No die kept.
pub open spec fn none_kept() -> Seq<bool> {
    seq![false, false, false, false, false]
}

/// The locks after the die at `index` was locked or freed. An index that
/// names no die changes nothing.
pub open spec fn toggled(keep: Seq<bool>, index: int) -> Seq<bool> {
    if 0 <= index < 5 {
        keep.update(index, !keep[index])
    } else {
        keep
    }
}

/// The cursor after a step to the left: it stops at the first die.
pub open spec fn cursor_left(cursor: int) -> int {
    if cursor > 0 {
        cursor - 1
    } else {
        cursor
    }
}

/// The cursor after a step to the right: it stops at the fifth die.
pub open spec fn cursor_right(cursor: int) -> int {
    if cursor < 4 {
        cursor + 1
    } else {
        cursor
    }
}

/// The blanks before the mark that shows where the cursor is: the picture
/// of a die and the gap behind it are ten characters wide, and a cursor
/// beyond the fifth die counts as one at the fifth.
pub open spec fn margin(cursor: int) -> Seq<char> {
    if cursor < 4 {
        blanks(10 * cursor)
    } else {
        blanks(40)
    }
}

/// What a step of choosing dice does to the locks and to the cursor, and
/// how it ends. The left and down arrows move the cursor to the left, the
/// right and up arrows move it to the right, `ToggleKeep` locks or frees a
/// die, `Confirm` ends the choice and `Cancel` leaves the game.
pub open spec fn choice_outcome(keep: Seq<bool>, cursor: int, event: Event) -> (
    Seq<bool>,
    int,
    DiceSelectStatus,
) {
    match event {
        Event::Cancel => (keep, cursor, DiceSelectStatus::Exit),
        Event::Confirm => (keep, cursor, DiceSelectStatus::Complete),
        Event::ToggleKeep(index) => (toggled(keep, index as int), cursor, DiceSelectStatus::Incomplete),
        Event::MoveCursorLeft | Event::MoveCursorDown => (
            keep,
            cursor_left(cursor),
            DiceSelectStatus::Incomplete,
        ),
        Event::MoveCursorRight | Event::MoveCursorUp => (
            keep,
            cursor_right(cursor),
            DiceSelectStatus::Incomplete,
        ),
        Event::StrikeSlot => (keep, cursor, DiceSelectStatus::Incomplete),
    }
}

/// Whether the picture of a die that shows `value` has a pip at `place` of
/// `row`. The top and the bottom row have a place to the left, 0, and one
/// to the right, 1; the middle row has one more between them. A value that
/// is no face from 1 to 5 is drawn as a 6.
pub open spec fn has_pip(value: int, row: int, place: int) -> bool {
    if row == 1 {
        if place == 1 {
            value == 1 || value == 3 || value == 5
        } else {
            !(1 <= value <= 5)
        }
    } else if (row == 0 && place == 1) || (row == 2 && place == 0) {
        value != 1
    } else {
        !(1 <= value <= 3)
    }
}

/// The character at `col` of `row` in the picture of five dice. The
/// middle row gives three places to each die, the other rows two, and
/// what is left of a row is blank. A pip is black on a kept die and white
/// on a free one.
pub open spec fn dot_at(current: Seq<usize>, keep: Seq<bool>, row: int, col: int) -> char {
    let width = if row == 1 {
        3int
    } else {
        2int
    };
    let die = col / width;
    if 0 <= die < 5 && has_pip(current[die] as int, row, col % width) {
        if keep[die] {
            '\u{25cf}'
        } else {
            '\u{25cb}'
        }
    } else {
        ' '
    }
}

impl Dice {
    /// Whether every die shows a face from 1 to 6.
    pub open spec fn rolled(&self) -> bool {
        valid_hand(self.current@)
    }

    /// Whether every die is kept.
    pub open spec fn all_kept(&self) -> bool {
        every_kept(self.keep@)
    }

    /// Five dice that were never rolled, none of them kept.
    pub fn new() -> (dice: Dice)
        ensures
            dice.current@ == seq![0usize, 0, 0, 0, 0],
            dice.keep@ == none_kept(),
    {
        let dice = Dice { current: [0, 0, 0, 0, 0], keep: [false, false, false, false, false] };
        dice
    }

    /// Whether every die is kept.
    pub fn keep_all(&self) -> (all: bool)
        ensures
            all == self.all_kept(),
    {
        let mut i: usize = 0;
        while i < 5
            invariant
                i <= 5,
                forall|j: int| 0 <= j < i ==> #[trigger] self.keep@[j],
            decreases 5 - i,
        {
            if !self.keep[i] {
                return false;
            }
            i += 1;
        }
        true
    }

    /// Whether every die shows a face from 1 to 6.
    pub fn is_rolled(&self) -> (all: bool)
        ensures
            all == self.rolled(),
    {
        let mut i: usize = 0;
        while i < 5
            invariant
                i <= 5,
                forall|j: int| 0 <= j < i ==> 1 <= #[trigger] self.current@[j] <= 6,
            decreases 5 - i,
        {
            if self.current[i] < 1 || self.current[i] > 6 {
                return false;
            }
            i += 1;
        }
        true
    }

    /// Locks the die at `index` if it is free and frees it if it is locked.
    /// An index that names no die changes nothing.
    pub fn toggle_keep(&mut self, index: usize)
        ensures
            final(self).current@ == old(self).current@,
            final(self).keep@ == toggled(old(self).keep@, index as int),
    {
        if index < 5 {
            let kept = self.keep[index];
            self.keep[index] = !kept;
        }
    }

    /// Gives every die that is not kept the face that `faces` holds for it.
    pub fn roll_with(&mut self, faces: &[usize; 5])
        ensures
            final(self).keep@ == old(self).keep@,
            final(self).current@ == roll_faces(old(self).current@, old(self).keep@, faces@),
    {
        let mut i: usize = 0;
        while i < 5
            invariant
                i <= 5,
                self.keep@ == old(self).keep@,
                forall|j: int|
                    0 <= j < i ==> #[trigger] self.current@[j] == roll_faces(
                        old(self).current@,
                        old(self).keep@,
                        faces@,
                    )[j],
                forall|j: int| i <= j < 5 ==> #[trigger] self.current@[j] == old(self).current@[j],
            decreases 5 - i,
        {
            if !self.keep[i] {
                self.current[i] = faces[i];
            }
            i += 1;
        }
    }

    /// Rolls every die that is not kept. Whatever the dice bring, a kept die
    /// stays as it was and every other die shows a face from 1 to 6.
    pub fn roll(&mut self)
        ensures
            final(self).keep@ == old(self).keep@,
            forall|i: int|
                0 <= i < 5 && old(self).keep@[i] ==> #[trigger] final(self).current@[i] == old(
                    self,
                ).current@[i],
            forall|i: int|
                0 <= i < 5 && !old(self).keep@[i] ==> 1 <= #[trigger] final(self).current@[i] <= 6,
    {
        let mut i: usize = 0;
        while i < 5
            invariant
                i <= 5,
                self.keep@ == old(self).keep@,
                forall|j: int|
                    0 <= j < 5 && old(self).keep@[j] ==> #[trigger] self.current@[j] == old(
                        self,
                    ).current@[j],
                forall|j: int| 0 <= j < i && !old(self).keep@[j] ==> 1 <= #[trigger] self.current@[j] <= 6,
            decreases 5 - i,
        {
            if !self.keep[i] {
                let face = random_face();
                self.current[i] = face;
            }
            i += 1;
        }
    }

    /// Frees every die and gives it the face that `faces` holds for it.
    pub fn reroll_all_with(&mut self, faces: &[usize; 5])
        ensures
            final(self).current@ == faces@,
            final(self).keep@ == none_kept(),
    {
        self.current = *faces;
        self.keep = [false, false, false, false, false];
    }

    /// Frees every die and rolls it. Whatever the dice bring, each shows a
    /// face from 1 to 6.
    pub fn reroll_all(&mut self)
        ensures
            final(self).rolled(),
            final(self).keep@ == none_kept(),
    {
        let mut i: usize = 0;
        while i < 5
            invariant
                i <= 5,
                forall|j: int| 0 <= j < i ==> 1 <= #[trigger] self.current@[j] <= 6,
            decreases 5 - i,
        {
            let face = random_face();
            self.current[i] = face;
            i += 1;
        }
        self.keep = [false, false, false, false, false];
    }

    /// Whether the picture of a die that shows `value` has a pip at `place`
    /// of `row`.
    fn pip(value: usize, row: usize, place: usize) -> (yes: bool)
        ensures
            yes == has_pip(value as int, row as int, place as int),
    {
        if row == 1 {
            if place == 1 {
                value == 1 || value == 3 || value == 5
            } else {
                !(1 <= value && value <= 5)
            }
        } else if (row == 0 && place == 1) || (row == 2 && place == 0) {
            value != 1
        } else {
            !(1 <= value && value <= 3)
        }
    }

    /// One row of the picture of the dice.
    fn dot_row(&self, row: usize) -> (line: [char; 15])
        requires
            row < 3,
        ensures
            forall|col: int|
                0 <= col < 15 ==> #[trigger] line@[col] == dot_at(
                    self.current@,
                    self.keep@,
                    row as int,
                    col,
                ),
    {
        let width: usize = if row == 1 {
            3
        } else {
            2
        };
        let mut line: [char; 15] = [' ';15];
        let mut col: usize = 0;
        while col < 15
            invariant
                col <= 15,
                row < 3,
                width == if row == 1 {
                    3int
                } else {
                    2int
                },
                forall|c: int|
                    0 <= c < col ==> #[trigger] line@[c] == dot_at(
                        self.current@,
                        self.keep@,
                        row as int,
                        c,
                    ),
            decreases 15 - col,
        {
            let die = col / width;
            let mut dot: char = ' ';
            if die < 5 && Self::pip(self.current[die], row, col % width) {
                if self.keep[die] {
                    dot = '\u{25cf}';
                } else {
                    dot = '\u{25cb}';
                }
            }
            line[col] = dot;
            col += 1;
        }
        line
    }

    /// The picture of the dice: three rows of pips, black for a kept die
    /// and white for a free one.
    pub fn dots(&self) -> (dot: [[char; 15]; 3])
        ensures
            forall|row: int, col: int|
                0 <= row < 3 && 0 <= col < 15 ==> #[trigger] dot@[row]@[col] == dot_at(
                    self.current@,
                    self.keep@,
                    row,
                    col,
                ),
    {
        [self.dot_row(0), self.dot_row(1), self.dot_row(2)]
    }

    /// The blanks before the mark that shows where the cursor is.
    pub fn left_margin(margin_width: usize) -> (left_margin: String)
        ensures
            left_margin@ == margin(margin_width as int),
    {
        let mut left_margin = String::new();
        if margin_width < 4 {
            append_blanks(&mut left_margin, 10 * margin_width);
        } else {
            append_blanks(&mut left_margin, 40);
        }
        left_margin
    }

    /// One step of choosing which dice to keep, with the cursor at
    /// `margin_width`. The faces stay as they are.
    pub fn select(&mut self, margin_width: &mut usize, event: Event) -> (status:
        DiceSelectStatus)
        ensures
            final(self).current@ == old(self).current@,
            (final(self).keep@, *final(margin_width) as int, status) == choice_outcome(
                old(self).keep@,
                *old(margin_width) as int,
                event,
            ),
    {
        match event {
            Event::Cancel => DiceSelectStatus::Exit,
            Event::Confirm => DiceSelectStatus::Complete,
            Event::ToggleKeep(index) => {
                self.toggle_keep(index);
                DiceSelectStatus::Incomplete
            },
            Event::MoveCursorLeft | Event::MoveCursorDown => {
                if *margin_width > 0 {
                    *margin_width = *margin_width - 1;
                }
                DiceSelectStatus::Incomplete
            },
            Event::MoveCursorRight | Event::MoveCursorUp => {
                if *margin_width < 4 {
                    *margin_width += 1;
                }
                DiceSelectStatus::Incomplete
            },
            Event::StrikeSlot => DiceSelectStatus::Incomplete,
        }
    }
}

} // verus!
