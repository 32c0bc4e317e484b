//! The scoreboard: fifteen slots that are written once each, and the
//! subtotal, the bonus and the total that follow from them.

use crate::dice::Dice;
use crate::event::Event;
use crate::rules::{as_int, board_order, lemma_score_bounds, valid_hand, Category, ScoreValidator};
use crate::text::{blanks, right_aligned, right_aligned_text};
use vstd::prelude::*;
use vstd::string::*;

verus! {

/// What a slot holds.
#[derive(Clone, Copy, PartialEq, Eq, Structural, Debug)]
pub enum SlotState {
    /// Nothing was placed yet.
    Empty,
    /// The player gave the category up: it counts as zero.
    Struck,
    /// The points that were placed.
    Filled(u8),
}

/// A slot of the board as the player sees it: the category and what was
/// placed there.
#[derive(Clone, Copy, PartialEq, Eq, Structural, Debug)]
pub struct ScoreCategory {
    pub name: Category,
    pub state: SlotState,
}

/// A slot takes points or a strike once only.
#[derive(Clone, Copy, PartialEq, Eq, Structural, Debug)]
pub struct AlreadySelected;

/// How a step of choosing a slot ended.
#[derive(Clone, Copy, PartialEq, Eq, Structural, Debug)]
pub enum SlotSelectStatus {
    /// The slot under the cursor was used before.
    AlreadySelected,
    /// The player leaves the game.
    Exit,
    /// The category of the slot under the cursor does not apply to the hand.
    Invalid,
    /// Points or a strike were placed.
    Complete,
    /// The player goes on choosing.
    Incomplete,
}

/// The points that a slot counts for.
pub open spec fn points(state: SlotState) -> int {
    match state {
        SlotState::Filled(value) => value as int,
        _ => 0,
    }
}

/// The two characters that the board shows for a slot: blanks for an
/// empty slot, a dash for a struck one, and the points at the right.
pub open spec fn slot_text(state: SlotState) -> Seq<char> {
    match state {
        SlotState::Empty => blanks(2),
        SlotState::Struck => seq![' ', '\u{2013}'],
        SlotState::Filled(value) => right_aligned(value as nat, 2),
    }
}

/// The three characters that the board shows for a sum: the points at
/// the right, and blanks while there are none.
pub open spec fn sum_text(points: int) -> Seq<char> {
    if points > 0 {
        right_aligned(points as nat, 3)
    } else {
        blanks(3)
    }
}

/// The two characters that the board shows for the bonus: the bonus, a
/// dash for an upper section that is full without one, and blanks while
/// the bonus is open.
pub open spec fn bonus_text(bonus: Option<int>) -> Seq<char> {
    match bonus {
        Some(value) => if value > 0 {
            right_aligned(value as nat, 2)
        } else {
            seq![' ', '\u{2013}']
        },
        None => blanks(2),
    }
}

/// The points of the slots from `from` up to, not including, `to`.
pub open spec fn points_in(slots: Seq<SlotState>, from: int, to: int) -> int
    decreases to - from,
{
    if to <= from {
        0
    } else {
        points_in(slots, from, to - 1) + points(slots[to - 1])
    }
}

/// The points of the upper section, Ones to Sixes.
pub open spec fn subtotal_of(slots: Seq<SlotState>) -> int {
    points_in(slots, 0, 6)
}

/// Whether every slot of the upper section was used.
pub open spec fn upper_done(slots: Seq<SlotState>) -> bool {
    forall|i: int| 0 <= i < 6 ==> !(#[trigger] slots[i] is Empty)
}

/// The bonus: 50 for an upper section of more than 62 points, 0 for an
/// upper section that is full without them, and open until then.
pub open spec fn bonus_of(slots: Seq<SlotState>) -> Option<int> {
    if subtotal_of(slots) > 62 {
        Some(50)
    } else if upper_done(slots) {
        Some(0)
    } else {
        None
    }
}

/// The bonus as points: an open bonus counts nothing.
pub open spec fn bonus_points(slots: Seq<SlotState>) -> int {
    match bonus_of(slots) {
        Some(value) => value,
        None => 0,
    }
}

/// The total: the upper section, the bonus and the lower section.
pub open spec fn total_of(slots: Seq<SlotState>) -> int {
    subtotal_of(slots) + bonus_points(slots) + points_in(slots, 6, 15)
}

/// Whether every slot was used.
pub open spec fn final_of(slots: Seq<SlotState>) -> bool {
    forall|i: int| 0 <= i < 15 ==> !(#[trigger] slots[i] is Empty)
}

/// How many of the first `n` slots were used.
pub open spec fn used_in(slots: Seq<SlotState>, n: int) -> int
    decreases n,
{
    if n <= 0 {
        0
    } else {
        used_in(slots, n - 1) + if slots[n - 1] is Empty {
            0int
        } else {
            1int
        }
    }
}

/// The slots after `value` was placed at `slot`, if that slot was empty.
pub open spec fn filled(slots: Seq<SlotState>, slot: Category, value: u8) -> Seq<SlotState> {
    if slots[slot.position()] is Empty {
        slots.update(slot.position(), SlotState::Filled(value))
    } else {
        slots
    }
}

/// The slots after `slot` was struck, if that slot was empty.
pub open spec fn struck(slots: Seq<SlotState>, slot: Category) -> Seq<SlotState> {
    if slots[slot.position()] is Empty {
        slots.update(slot.position(), SlotState::Struck)
    } else {
        slots
    }
}

/// The points that the hand brings in `slot`, as a slot takes them.
pub open spec fn offer(slot: Category, hand: Seq<usize>) -> Option<u8> {
    match slot.score(hand) {
        Some(value) => Some(value as u8),
        None => None,
    }
}

/// What a step of choosing a slot does to the slots and to the cursor, and
/// how it ends. `Confirm` places what the hand brings in the slot under the
/// cursor, `StrikeSlot` strikes that slot where its category does not
/// apply to the hand, the arrows move the cursor round the board, and
/// `Cancel` leaves the game. A slot that was used takes nothing more, a
/// category that does not apply places nothing, and a category that
/// applies is not struck.
pub open spec fn select_outcome(
    slots: Seq<SlotState>,
    hand: Seq<usize>,
    cursor: Category,
    event: Event,
) -> (Seq<SlotState>, Category, SlotSelectStatus) {
    match event {
        Event::Cancel => (slots, cursor, SlotSelectStatus::Exit),
        Event::Confirm => if !(slots[cursor.position()] is Empty) {
            (slots, cursor, SlotSelectStatus::AlreadySelected)
        } else {
            match offer(cursor, hand) {
                Some(value) => (filled(slots, cursor, value), cursor, SlotSelectStatus::Complete),
                None => (slots, cursor, SlotSelectStatus::Invalid),
            }
        },
        Event::StrikeSlot => if slots[cursor.position()] is Empty && offer(cursor, hand) is None {
            (struck(slots, cursor), cursor, SlotSelectStatus::Complete)
        } else {
            (slots, cursor, SlotSelectStatus::Incomplete)
        },
        Event::MoveCursorUp | Event::MoveCursorLeft => (
            slots,
            cursor.preceding(),
            SlotSelectStatus::Incomplete,
        ),
        Event::MoveCursorDown | Event::MoveCursorRight => (
            slots,
            cursor.following(),
            SlotSelectStatus::Incomplete,
        ),
        Event::ToggleKeep(_) => (slots, cursor, SlotSelectStatus::Incomplete),
    }
}

/// What a step of placing points does while `shown` is what the last step
/// ended with. While the player is told that the slot was used, `Confirm`
/// only takes that notice away, and the up and down arrows take it away
/// and move the cursor; nothing else counts but `Cancel`. Once points are
/// placed, nothing counts but `Cancel`. Otherwise the step is one of
/// choosing a slot.
pub open spec fn place_outcome(
    slots: Seq<SlotState>,
    hand: Seq<usize>,
    cursor: Category,
    shown: SlotSelectStatus,
    event: Event,
) -> (Seq<SlotState>, Category, SlotSelectStatus) {
    match shown {
        SlotSelectStatus::Exit => (slots, cursor, SlotSelectStatus::Exit),
        SlotSelectStatus::Complete => match event {
            Event::Cancel => (slots, cursor, SlotSelectStatus::Exit),
            _ => (slots, cursor, SlotSelectStatus::Complete),
        },
        SlotSelectStatus::AlreadySelected => match event {
            Event::Cancel => (slots, cursor, SlotSelectStatus::Exit),
            Event::Confirm => (slots, cursor, SlotSelectStatus::Incomplete),
            Event::MoveCursorUp => (slots, cursor.preceding(), SlotSelectStatus::Incomplete),
            Event::MoveCursorDown => (slots, cursor.following(), SlotSelectStatus::Incomplete),
            _ => (slots, cursor, SlotSelectStatus::AlreadySelected),
        },
        _ => select_outcome(slots, hand, cursor, event),
    }
}

/// The total is read off the slots: two boards with the same slots have
/// the same subtotal, the same bonus and the same total, and so have two
/// readings of one board.
pub proof fn lemma_total_repeats(first: Score, second: Score)
    requires
        first@ == second@,
    ensures
        subtotal_of(first@) == subtotal_of(second@),
        bonus_of(first@) == bonus_of(second@),
        total_of(first@) == total_of(second@),
{
}

/// A slot is written once: points or a strike that come to a used slot
/// leave the board as it is, and those that come to an empty slot leave
/// every other slot as it is.
pub proof fn lemma_write_once(slots: Seq<SlotState>, slot: Category, value: u8, i: int)
    requires
        slots.len() == 15,
        0 <= i < 15,
        !(slots[i] is Empty) || i != slot.position(),
    ensures
        filled(slots, slot, value)[i] == slots[i],
        struck(slots, slot)[i] == slots[i],
{
}

/// A choice that is turned down, as one of a used slot or of a category
/// that does not apply to the hand, changes neither the board nor the
/// cursor.
pub proof fn lemma_rejected_choice(
    slots: Seq<SlotState>,
    hand: Seq<usize>,
    cursor: Category,
    event: Event,
)
    requires
        select_outcome(slots, hand, cursor, event).2 is Invalid || select_outcome(
            slots,
            hand,
            cursor,
            event,
        ).2 is AlreadySelected,
    ensures
        select_outcome(slots, hand, cursor, event).0 == slots,
        select_outcome(slots, hand, cursor, event).1 == cursor,
{
}

/// A strike is for a category that does not apply to the hand: a step
/// that strikes a slot found it empty and found nothing that the hand
/// brings there, and a step that is asked to strike any other slot changes
/// neither the board nor the cursor and does not end the choice.
pub proof fn lemma_strike_needs_no_score(slots: Seq<SlotState>, hand: Seq<usize>, cursor: Category)
    requires
        slots.len() == 15,
    ensures
        select_outcome(slots, hand, cursor, Event::StrikeSlot).2 is Complete <==> slots[cursor.position()]
            is Empty && cursor.score(hand) is None,
        select_outcome(slots, hand, cursor, Event::StrikeSlot).2 is Complete ==> select_outcome(
            slots,
            hand,
            cursor,
            Event::StrikeSlot,
        ).0 == slots.update(cursor.position(), SlotState::Struck),
        !(select_outcome(slots, hand, cursor, Event::StrikeSlot).2 is Complete) ==> select_outcome(
            slots,
            hand,
            cursor,
            Event::StrikeSlot,
        ) == (slots, cursor, SlotSelectStatus::Incomplete),
{
}

/// No more slots are used than there are, and all of them are used once
/// none is empty.
pub proof fn lemma_used_in(slots: Seq<SlotState>, n: int)
    requires
        0 <= n <= slots.len(),
    ensures
        0 <= used_in(slots, n) <= n,
        used_in(slots, n) == n <==> forall|i: int| 0 <= i < n ==> !(#[trigger] slots[i] is Empty),
    decreases n,
{
    if n > 0 {
        lemma_used_in(slots, n - 1);
    }
}

/// A slot that is written counts among the first `n` if it is one of
/// them.
proof fn lemma_used_in_update(slots: Seq<SlotState>, at: int, state: SlotState, n: int)
    requires
        0 <= at < slots.len(),
        0 <= n <= slots.len(),
        slots[at] is Empty,
        !(state is Empty),
    ensures
        used_in(slots.update(at, state), n) == used_in(slots, n) + if at < n {
            1int
        } else {
            0int
        },
    decreases n,
{
    if n > 0 {
        lemma_used_in_update(slots, at, state, n - 1);
    }
}

/// A game takes fifteen placements: a step that ends with `Complete` uses
/// one slot more, any other step leaves the board as it is, and the board
/// is full when fifteen slots are used.
pub proof fn lemma_complete_uses_a_slot(
    slots: Seq<SlotState>,
    hand: Seq<usize>,
    cursor: Category,
    event: Event,
)
    requires
        slots.len() == 15,
    ensures
        select_outcome(slots, hand, cursor, event).2 is Complete ==> used_in(
            select_outcome(slots, hand, cursor, event).0,
            15,
        ) == used_in(slots, 15) + 1,
        !(select_outcome(slots, hand, cursor, event).2 is Complete) ==> select_outcome(
            slots,
            hand,
            cursor,
            event,
        ).0 == slots,
        final_of(slots) <==> used_in(slots, 15) == 15,
{
    lemma_used_in(slots, 15);
    if slots[cursor.position()] is Empty {
        lemma_used_in_update(slots, cursor.position(), SlotState::Struck, 15);
        match offer(cursor, hand) {
            Some(value) => lemma_used_in_update(
                slots,
                cursor.position(),
                SlotState::Filled(value),
                15,
            ),
            None => {},
        }
    }
}

/// The text of blanks: as many as `n`, for 2 and for 3.
fn blank_text(n: usize) -> (text: String)
    requires
        n == 2 || n == 3,
    ensures
        text@ == blanks(n as int),
{
    proof {
        reveal_strlit("  ");
        reveal_strlit("   ");
    }
    let text = if n == 2 {
        String::from_str("  ")
    } else {
        String::from_str("   ")
    };
    text
}

/// The text of a dash at the right of two characters.
fn dash_text() -> (text: String)
    ensures
        text@ == seq![' ', '\u{2013}'],
{
    proof {
        reveal_strlit(" \u{2013}");
    }
    let text = String::from_str(" \u{2013}");
    text
}

impl SlotState {
    /// The two characters that the board shows for the slot.
    pub fn text(self) -> (text: String)
        ensures
            text@ == slot_text(self),
    {
        match self {
            SlotState::Empty => blank_text(2),
            SlotState::Struck => dash_text(),
            SlotState::Filled(value) => right_aligned_text(value as u32, 2),
        }
    }
}

/// The scoreboard.
#[derive(Clone, Copy, Debug)]
pub struct Score {
    states: [SlotState; 15],
}

impl View for Score {
    type V = Seq<SlotState>;

    /// The fifteen slots in board order.
    closed spec fn view(&self) -> Seq<SlotState> {
        self.states@
    }
}

impl Score {
    /// A board has fifteen slots.
    pub proof fn lemma_size(&self)
        ensures
            self@.len() == 15,
    {
    }

    /// The total of a board fits in four digits.
    pub proof fn lemma_total_range(&self)
        ensures
            0 <= total_of(self@) <= 3875,
    {
        reveal_with_fuel(points_in, 10);
    }

    /// A board with fifteen empty slots.
    pub fn new() -> (score: Score)
        ensures
            score@ == Seq::new(15, |i: int| SlotState::Empty),
    {
        let score = Score {
            states: [
                SlotState::Empty,
                SlotState::Empty,
                SlotState::Empty,
                SlotState::Empty,
                SlotState::Empty,
                SlotState::Empty,
                SlotState::Empty,
                SlotState::Empty,
                SlotState::Empty,
                SlotState::Empty,
                SlotState::Empty,
                SlotState::Empty,
                SlotState::Empty,
                SlotState::Empty,
                SlotState::Empty,
            ],
        };
        score
    }

    /// What the slot of a category holds.
    pub fn state(&self, slot: Category) -> (state: SlotState)
        ensures
            state == self@[slot.position()],
    {
        self.states[slot.index()]
    }

    /// The fifteen slots in board order, each with its category.
    pub fn slots(&self) -> (slots: Vec<ScoreCategory>)
        ensures
            slots@.len() == 15,
            forall|i: int|
                0 <= i < 15 ==> #[trigger] slots@[i] == (ScoreCategory {
                    name: board_order()[i],
                    state: self@[i],
                }),
    {
        let table = ScoreValidator::new();
        let mut slots: Vec<ScoreCategory> = Vec::new();
        let mut i: usize = 0;
        while i < 15
            invariant
                i <= 15,
                table@ == board_order(),
                slots@.len() == i,
                forall|j: int|
                    0 <= j < i ==> #[trigger] slots@[j] == (ScoreCategory {
                        name: board_order()[j],
                        state: self@[j],
                    }),
            decreases 15 - i,
        {
            slots.push(ScoreCategory { name: table[i], state: self.states[i] });
            i += 1;
        }
        slots
    }

    /// What the hand would bring in each slot that is still empty. A slot
    /// that was used is not looked at again and offers nothing.
    pub fn evaluate(&self, current: &[usize; 5]) -> (offers: Vec<Option<usize>>)
        requires
            valid_hand(current@),
        ensures
            offers@.len() == 15,
            forall|i: int|
                0 <= i < 15 ==> as_int(#[trigger] offers@[i]) == (if self@[i] is Empty {
                    board_order()[i].score(current@)
                } else {
                    None
                }),
    {
        let table = ScoreValidator::new();
        let mut offers: Vec<Option<usize>> = Vec::new();
        let mut i: usize = 0;
        while i < 15
            invariant
                i <= 15,
                valid_hand(current@),
                table@ == board_order(),
                offers@.len() == i,
                forall|j: int|
                    0 <= j < i ==> as_int(#[trigger] offers@[j]) == (if self@[j] is Empty {
                        board_order()[j].score(current@)
                    } else {
                        None
                    }),
            decreases 15 - i,
        {
            let offer = match self.states[i] {
                SlotState::Empty => ScoreValidator::score(table[i], current),
                _ => None,
            };
            offers.push(offer);
            i += 1;
        }
        offers
    }

    /// Places `value` in an empty slot. A slot that was used stays as it
    /// is, and the call fails.
    pub fn fill(&mut self, slot: Category, value: u8) -> (done: Result<(), AlreadySelected>)
        ensures
            done is Ok <==> old(self)@[slot.position()] is Empty,
            final(self)@ == filled(old(self)@, slot, value),
    {
        let i = slot.index();
        match self.states[i] {
            SlotState::Empty => {
                self.states[i] = SlotState::Filled(value);
                Ok(())
            },
            _ => Err(AlreadySelected),
        }
    }

    /// Strikes an empty slot. A slot that was used stays as it is, and the
    /// call fails. The board knows no hand: a strike is for a category that
    /// does not apply to the hand, and the caller has tested that, as
    /// `select_slot` does.
    pub fn strike(&mut self, slot: Category) -> (done: Result<(), AlreadySelected>)
        ensures
            done is Ok <==> old(self)@[slot.position()] is Empty,
            final(self)@ == struck(old(self)@, slot),
    {
        let i = slot.index();
        match self.states[i] {
            SlotState::Empty => {
                self.states[i] = SlotState::Struck;
                Ok(())
            },
            _ => Err(AlreadySelected),
        }
    }

    /// One step of choosing a slot for the hand of `dice`, with the cursor
    /// at `i`.
    pub fn select_slot(&mut self, dice: &Dice, i: &mut Category, event: Event) -> (status:
        SlotSelectStatus)
        requires
            dice.rolled(),
        ensures
            (final(self)@, *final(i), status) == select_outcome(
                old(self)@,
                dice.current@,
                *old(i),
                event,
            ),
    {
        match event {
            Event::Cancel => SlotSelectStatus::Exit,
            Event::Confirm => {
                match self.state(*i) {
                    SlotState::Empty => {},
                    _ => {
                        return SlotSelectStatus::AlreadySelected;
                    },
                }
                match ScoreValidator::score(*i, &dice.current) {
                    Some(value) => {
                        proof {
                            lemma_score_bounds(*i, dice.current@);
                        }
                        let _ = self.fill(*i, value as u8);
                        SlotSelectStatus::Complete
                    },
                    None => SlotSelectStatus::Invalid,
                }
            },
            Event::StrikeSlot => {
                match self.state(*i) {
                    SlotState::Empty => {},
                    _ => {
                        return SlotSelectStatus::Incomplete;
                    },
                }
                match ScoreValidator::score(*i, &dice.current) {
                    Some(_) => SlotSelectStatus::Incomplete,
                    None => {
                        let _ = self.strike(*i);
                        SlotSelectStatus::Complete
                    },
                }
            },
            Event::MoveCursorUp | Event::MoveCursorLeft => {
                *i = i.prev();
                SlotSelectStatus::Incomplete
            },
            Event::MoveCursorDown | Event::MoveCursorRight => {
                *i = i.next();
                SlotSelectStatus::Incomplete
            },
            Event::ToggleKeep(_) => SlotSelectStatus::Incomplete,
        }
    }

    /// One step of placing the points of a hand, where `shown` is what the
    /// step before ended with, `Incomplete` for the first.
    pub fn place_points(
        &mut self,
        dice: &Dice,
        i: &mut Category,
        shown: SlotSelectStatus,
        event: Event,
    ) -> (status: SlotSelectStatus)
        requires
            dice.rolled(),
        ensures
            (final(self)@, *final(i), status) == place_outcome(
                old(self)@,
                dice.current@,
                *old(i),
                shown,
                event,
            ),
    {
        match shown {
            SlotSelectStatus::Exit => SlotSelectStatus::Exit,
            SlotSelectStatus::Complete => match event {
                Event::Cancel => SlotSelectStatus::Exit,
                _ => SlotSelectStatus::Complete,
            },
            SlotSelectStatus::AlreadySelected => match event {
                Event::Cancel => SlotSelectStatus::Exit,
                Event::Confirm => SlotSelectStatus::Incomplete,
                Event::MoveCursorUp => {
                    *i = i.prev();
                    SlotSelectStatus::Incomplete
                },
                Event::MoveCursorDown => {
                    *i = i.next();
                    SlotSelectStatus::Incomplete
                },
                _ => SlotSelectStatus::AlreadySelected,
            },
            _ => self.select_slot(dice, i, event),
        }
    }

    /// The points of the slots from `from` up to, not including, `to`.
    fn range_points(&self, from: usize, to: usize) -> (value: usize)
        requires
            from <= to <= 15,
        ensures
            value == points_in(self@, from as int, to as int),
            value <= 255 * (to - from),
    {
        let mut value: usize = 0;
        let mut i: usize = from;
        while i < to
            invariant
                from <= i <= to <= 15,
                value == points_in(self@, from as int, i as int),
                value <= 255 * (i - from),
            decreases to - i,
        {
            match self.states[i] {
                SlotState::Filled(points) => {
                    value += points as usize;
                },
                _ => {},
            }
            i += 1;
        }
        value
    }

    /// The points of the upper section.
    pub fn subtotal(&self) -> (value: usize)
        ensures
            value == subtotal_of(self@),
    {
        self.range_points(0, 6)
    }

    /// Whether every slot of the upper section was used.
    fn upper_section_done(&self) -> (done: bool)
        ensures
            done == upper_done(self@),
    {
        let mut i: usize = 0;
        while i < 6
            invariant
                i <= 6,
                forall|j: int| 0 <= j < i ==> !(#[trigger] self@[j] is Empty),
            decreases 6 - i,
        {
            match self.states[i] {
                SlotState::Empty => {
                    return false;
                },
                _ => {},
            }
            i += 1;
        }
        true
    }

    /// The bonus: 50 once the upper section counts more than 62 points, 0
    /// once it is full without them, and `None` while that is open.
    pub fn bonus(&self) -> (value: Option<usize>)
        ensures
            as_int(value) == bonus_of(self@),
    {
        if self.subtotal() > 62 {
            Some(50)
        } else if self.upper_section_done() {
            Some(0)
        } else {
            None
        }
    }

    /// The total: the upper section, the bonus and the lower section.
    pub fn total(&self) -> (value: usize)
        ensures
            value == total_of(self@),
    {
        let bonus: usize = match self.bonus() {
            Some(value) => value,
            None => 0,
        };
        let upper = self.range_points(0, 6);
        let lower = self.range_points(6, 15);
        upper + bonus + lower
    }

    /// The three characters that the board shows for the subtotal.
    pub fn subtotal_text(&self) -> (text: String)
        ensures
            text@ == sum_text(subtotal_of(self@)),
    {
        let points = self.range_points(0, 6);
        if points > 0 {
            right_aligned_text(points as u32, 3)
        } else {
            blank_text(3)
        }
    }

    /// The two characters that the board shows for the bonus.
    pub fn bonus_text(&self) -> (text: String)
        ensures
            text@ == bonus_text(bonus_of(self@)),
    {
        match self.bonus() {
            Some(value) => if value > 0 {
                right_aligned_text(value as u32, 2)
            } else {
                dash_text()
            },
            None => blank_text(2),
        }
    }

    /// The three characters that the board shows for the total.
    pub fn total_text(&self) -> (text: String)
        ensures
            text@ == sum_text(total_of(self@)),
    {
        proof {
            self.lemma_total_range();
        }
        let points = self.total();
        if points > 0 {
            right_aligned_text(points as u32, 3)
        } else {
            blank_text(3)
        }
    }

    /// Whether the game is over: every slot was used.
    pub fn is_final(&self) -> (over: bool)
        ensures
            over == final_of(self@),
    {
        let mut i: usize = 0;
        while i < 15
            invariant
                i <= 15,
                forall|j: int| 0 <= j < i ==> !(#[trigger] self@[j] is Empty),
            decreases 15 - i,
        {
            match self.states[i] {
                SlotState::Empty => {
                    return false;
                },
                _ => {},
            }
            i += 1;
        }
        true
    }
}

} // verus!
