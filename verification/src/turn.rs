//! The turn cycle: a roll, up to two more rolls of the dice that are not
//! kept, and the choice of a slot, until the board is full.

use crate::dice::{choice_outcome, every_kept, none_kept, roll_faces, Dice, DiceSelectStatus};
use crate::event::Event;
use crate::rules::{board_order, lemma_score_bounds, valid_hand, Category};
use crate::score::{
    final_of, place_outcome, points, points_in, subtotal_of, total_of, Score, SlotSelectStatus,
    SlotState,
};
use vstd::prelude::*;

verus! {

/// Where a game stands.
#[derive(Clone, Copy, PartialEq, Eq, Structural, Debug)]
pub enum Phase {
    /// The next cycle starts with `Confirm`.
    AwaitingRoll,
    /// The player chooses the dice to keep; `Confirm` rolls the others.
    Rerolling,
    /// The player chooses the slot for the hand.
    AwaitingSlotSelection,
    /// As `AwaitingSlotSelection`, after a choice that does not apply to the
    /// hand.
    SlotInvalid,
    /// The player chose a slot that was used: `Confirm` or an arrow up or
    /// down leads back to the choice.
    SlotAlreadySelected,
    /// The board is full.
    GameOver,
    /// The player left the game.
    Cancelled,
}

/// A game as plain values.
pub struct TurnView {
    /// The faces of the five dice.
    pub current: Seq<usize>,
    /// Which of the dice are kept.
    pub keep: Seq<bool>,
    /// The fifteen slots of the board.
    pub slots: Seq<SlotState>,
    /// Where the game stands.
    pub phase: Phase,
    /// How often the player rolled again in this cycle.
    pub rerolls: int,
    /// The slot that the player points at.
    pub cursor: Category,
    /// The die that the player points at.
    pub die_cursor: int,
}

/// What the player is shown while a slot is chosen.
pub open spec fn shown(phase: Phase) -> SlotSelectStatus {
    match phase {
        Phase::SlotInvalid => SlotSelectStatus::Invalid,
        Phase::SlotAlreadySelected => SlotSelectStatus::AlreadySelected,
        _ => SlotSelectStatus::Incomplete,
    }
}

/// Whether no slot holds more points than any hand brings in it.
pub open spec fn within_max(slots: Seq<SlotState>) -> bool {
    forall|i: int|
        0 <= i < 15 ==> (#[trigger] slots[i] matches SlotState::Filled(value) ==> value
            <= board_order()[i].max_score())
}

/// What holds of a game at every step.
pub open spec fn well_formed(state: TurnView) -> bool {
    &&& state.current.len() == 5
    &&& state.keep.len() == 5
    &&& state.slots.len() == 15
    &&& 0 <= state.rerolls <= 2
    &&& 0 <= state.die_cursor < 5
    &&& within_max(state.slots)
    &&& match state.phase {
        Phase::AwaitingRoll => state.rerolls == 0 && state.keep == none_kept() && !final_of(
            state.slots,
        ),
        Phase::Rerolling => state.rerolls < 2 && valid_hand(state.current) && !final_of(
            state.slots,
        ),
        Phase::AwaitingSlotSelection | Phase::SlotInvalid | Phase::SlotAlreadySelected => valid_hand(
            state.current,
        ) && !final_of(state.slots),
        Phase::GameOver => final_of(state.slots),
        Phase::Cancelled => true,
    }
}

/// A game before its first roll.
pub open spec fn initial() -> TurnView {
    TurnView {
        current: seq![0usize, 0, 0, 0, 0],
        keep: none_kept(),
        slots: Seq::new(15, |i: int| SlotState::Empty),
        phase: Phase::AwaitingRoll,
        rerolls: 0,
        cursor: Category::Ones,
        die_cursor: 0,
    }
}

/// The game after a roll that brings `faces`, with `rerolls` counted: the
/// player chooses dice while a roll is left and a die is free, and a slot
/// otherwise.
pub open spec fn after_roll(state: TurnView, faces: Seq<usize>, rerolls: int) -> TurnView {
    let current = roll_faces(state.current, state.keep, faces);
    if rerolls < 2 && !every_kept(state.keep) {
        TurnView { current, rerolls, phase: Phase::Rerolling, die_cursor: 0, ..state }
    } else {
        TurnView {
            current,
            rerolls,
            phase: Phase::AwaitingSlotSelection,
            cursor: Category::Ones,
            ..state
        }
    }
}

/// The game after one event, where `faces` is what the dice bring if they
/// are rolled.
///
/// Before a roll, `Confirm` rolls. While dice are chosen, `Confirm` rolls
/// the dice that are not kept, which counts as a roll unless all are kept.
/// While a slot is chosen, points end the cycle, and so does a strike of a
/// slot whose category does not apply to the hand: the game is
/// over once the board is full, and otherwise all dice are freed and
/// rolled for the next cycle. A choice that places nothing leaves dice and
/// board as they are. `Cancel` leaves the game at any point, and a game
/// that is over or was left takes no event.
pub open spec fn next(state: TurnView, event: Event, faces: Seq<usize>) -> TurnView {
    match state.phase {
        Phase::GameOver | Phase::Cancelled => state,
        Phase::AwaitingRoll => match event {
            Event::Cancel => TurnView { phase: Phase::Cancelled, ..state },
            Event::Confirm => after_roll(state, faces, state.rerolls),
            _ => state,
        },
        Phase::Rerolling => {
            let (keep, die_cursor, status) = choice_outcome(state.keep, state.die_cursor, event);
            match status {
                DiceSelectStatus::Exit => TurnView { phase: Phase::Cancelled, ..state },
                DiceSelectStatus::Incomplete => TurnView { keep, die_cursor, ..state },
                DiceSelectStatus::Complete => after_roll(
                    state,
                    faces,
                    if every_kept(state.keep) {
                        state.rerolls
                    } else {
                        state.rerolls + 1
                    },
                ),
            }
        },
        _ => {
            let (slots, cursor, status) = place_outcome(
                state.slots,
                state.current,
                state.cursor,
                shown(state.phase),
                event,
            );
            match status {
                SlotSelectStatus::Exit => TurnView { phase: Phase::Cancelled, ..state },
                SlotSelectStatus::Incomplete => TurnView {
                    cursor,
                    phase: Phase::AwaitingSlotSelection,
                    ..state
                },
                SlotSelectStatus::Invalid => TurnView { cursor, phase: Phase::SlotInvalid, ..state },
                SlotSelectStatus::AlreadySelected => TurnView {
                    cursor,
                    phase: Phase::SlotAlreadySelected,
                    ..state
                },
                SlotSelectStatus::Complete => if final_of(slots) {
                    TurnView { slots, cursor, phase: Phase::GameOver, ..state }
                } else {
                    TurnView {
                        current: faces,
                        keep: none_kept(),
                        slots,
                        cursor,
                        phase: Phase::AwaitingRoll,
                        rerolls: 0,
                        ..state
                    }
                },
            }
        },
    }
}

/// A kept die keeps its face through a roll, and a free die takes the face
/// that the roll brings: a hand stays a hand where every kept die showed a
/// face.
proof fn lemma_roll_faces(current: Seq<usize>, keep: Seq<bool>, faces: Seq<usize>)
    requires
        current.len() == 5,
        keep.len() == 5,
        valid_hand(faces),
        valid_hand(current) || keep == none_kept(),
    ensures
        valid_hand(roll_faces(current, keep, faces)),
        every_kept(keep) ==> roll_faces(current, keep, faces) == current,
        keep == none_kept() ==> roll_faces(current, keep, faces) == faces,
{
    let rolled = roll_faces(current, keep, faces);
    assert forall|i: int| 0 <= i < 5 implies 1 <= #[trigger] rolled[i] <= 6 by {
        assert(rolled[i] == current[i] || rolled[i] == faces[i]);
    }
    assert(every_kept(keep) ==> rolled =~= current);
    assert(keep == none_kept() ==> rolled =~= faces);
}

/// Whatever the player does and whatever the dice bring, a well-formed
/// game stays well formed: the counters stay in range, the dice show a
/// hand whenever one is looked at, no slot holds more than its category
/// allows, and the game is over exactly when the board is full.
pub proof fn lemma_next_well_formed(state: TurnView, event: Event, faces: Seq<usize>)
    requires
        well_formed(state),
        valid_hand(faces),
    ensures
        well_formed(next(state, event, faces)),
{
    match state.phase {
        Phase::GameOver | Phase::Cancelled => {},
        Phase::AwaitingRoll | Phase::Rerolling => {
            lemma_roll_faces(state.current, state.keep, faces);
        },
        _ => {
            lemma_score_bounds(state.cursor, state.current);
        },
    }
}

/// With no slot over the maximum of its category, the upper section counts
/// at most 105 points and the board at most 374.
pub proof fn lemma_total_max(slots: Seq<SlotState>)
    requires
        slots.len() == 15,
        within_max(slots),
    ensures
        0 <= subtotal_of(slots) <= 105,
        0 <= total_of(slots) <= 374,
{
    reveal_with_fuel(points_in, 10);
    assert(forall|i: int| 0 <= i < 15 ==> 0 <= points(#[trigger] slots[i]) <= board_order()[i].max_score());
}

/// A slot is written once: whatever happens, a slot that was used stays as
/// it is.
pub proof fn lemma_slot_stays(state: TurnView, event: Event, faces: Seq<usize>, i: int)
    requires
        state.slots.len() == 15,
        0 <= i < 15,
        !(state.slots[i] is Empty),
    ensures
        next(state, event, faces).slots[i] == state.slots[i],
{
}

/// A kept die keeps its face, whatever happens while the dice are chosen
/// and rolled.
pub proof fn lemma_kept_die_stays(state: TurnView, event: Event, faces: Seq<usize>, i: int)
    requires
        state.current.len() == 5,
        state.keep.len() == 5,
        state.phase is Rerolling,
        0 <= i < 5,
        state.keep[i],
    ensures
        next(state, event, faces).current[i] == state.current[i],
{
}

/// A game: the dice, the board, and where the cycle stands.
#[derive(Clone, Copy, Debug)]
pub struct Turn {
    dice: Dice,
    score: Score,
    phase: Phase,
    rerolls: u8,
    cursor: Category,
    die_cursor: usize,
}

impl View for Turn {
    type V = TurnView;

    closed spec fn view(&self) -> TurnView {
        TurnView {
            current: self.dice.current@,
            keep: self.dice.keep@,
            slots: self.score@,
            phase: self.phase,
            rerolls: self.rerolls as int,
            cursor: self.cursor,
            die_cursor: self.die_cursor as int,
        }
    }
}

impl Turn {
    #[verifier::type_invariant]
    spec fn inv(&self) -> bool {
        well_formed(self@)
    }

    /// A game before its first roll.
    pub fn new() -> (turn: Turn)
        ensures
            turn@ == initial(),
            well_formed(turn@),
    {
        let score = Score::new();
        assert(!final_of(score@)) by {
            assert(score@[0] is Empty);
        }
        Turn {
            dice: Dice::new(),
            score,
            phase: Phase::AwaitingRoll,
            rerolls: 0,
            cursor: Category::Ones,
            die_cursor: 0,
        }
    }

    /// Takes one step of the game, where `faces` is what the dice bring if
    /// the step rolls them.
    pub fn step_with(&mut self, event: Event, faces: &[usize; 5]) -> (phase: Phase)
        requires
            valid_hand(faces@),
        ensures
            final(self)@ == next(old(self)@, event, faces@),
            well_formed(final(self)@),
            phase == final(self)@.phase,
    {
        proof {
            use_type_invariant(&*self);
            lemma_next_well_formed(self@, event, faces@);
        }
        match self.phase {
            Phase::GameOver | Phase::Cancelled => {},
            Phase::AwaitingRoll => match event {
                Event::Cancel => {
                    self.phase = Phase::Cancelled;
                },
                Event::Confirm => {
                    let rerolls = self.rerolls;
                    self.roll_with(faces, rerolls);
                },
                _ => {},
            },
            Phase::Rerolling => {
                let mut dice = self.dice;
                let mut die_cursor = self.die_cursor;
                let all_kept = dice.keep_all();
                match dice.select(&mut die_cursor, event) {
                    DiceSelectStatus::Exit => {
                        self.phase = Phase::Cancelled;
                    },
                    DiceSelectStatus::Incomplete => {
                        *self = Turn { dice, die_cursor, ..*self };
                    },
                    DiceSelectStatus::Complete => {
                        let rerolls = if all_kept {
                            self.rerolls
                        } else {
                            self.rerolls + 1
                        };
                        self.roll_with(faces, rerolls);
                    },
                }
            },
            _ => {
                let mut score = self.score;
                let mut cursor = self.cursor;
                let shown = match self.phase {
                    Phase::SlotInvalid => SlotSelectStatus::Invalid,
                    Phase::SlotAlreadySelected => SlotSelectStatus::AlreadySelected,
                    _ => SlotSelectStatus::Incomplete,
                };
                match score.place_points(&self.dice, &mut cursor, shown, event) {
                    SlotSelectStatus::Exit => {
                        self.phase = Phase::Cancelled;
                    },
                    SlotSelectStatus::Incomplete => {
                        *self = Turn { cursor, phase: Phase::AwaitingSlotSelection, ..*self };
                    },
                    SlotSelectStatus::Invalid => {
                        *self = Turn { cursor, phase: Phase::SlotInvalid, ..*self };
                    },
                    SlotSelectStatus::AlreadySelected => {
                        *self = Turn { cursor, phase: Phase::SlotAlreadySelected, ..*self };
                    },
                    SlotSelectStatus::Complete => {
                        if score.is_final() {
                            *self = Turn { score, cursor, phase: Phase::GameOver, ..*self };
                        } else {
                            let mut dice = self.dice;
                            dice.reroll_all_with(faces);
                            *self = Turn {
                                dice,
                                score,
                                cursor,
                                phase: Phase::AwaitingRoll,
                                rerolls: 0,
                                ..*self
                            };
                        }
                    },
                }
            },
        }
        self.phase
    }

    /// Rolls the dice that are not kept and moves on: to the choice of
    /// dice while a roll is left and a die is free, and to the choice of a
    /// slot otherwise.
    fn roll_with(&mut self, faces: &[usize; 5], rerolls: u8)
        requires
            well_formed(after_roll(old(self)@, faces@, rerolls as int)),
        ensures
            final(self)@ == after_roll(old(self)@, faces@, rerolls as int),
    {
        let mut dice = self.dice;
        let all_kept = dice.keep_all();
        dice.roll_with(faces);
        if rerolls < 2 && !all_kept {
            *self = Turn { dice, rerolls, phase: Phase::Rerolling, die_cursor: 0, ..*self };
        } else {
            *self = Turn {
                dice,
                rerolls,
                phase: Phase::AwaitingSlotSelection,
                cursor: Category::Ones,
                ..*self
            };
        }
    }

    /// Takes one step of the game and rolls the dice where the step asks
    /// for it. Whatever the dice bring, the game is then as `step_with`
    /// leaves it for some hand.
    pub fn step(&mut self, event: Event) -> (phase: Phase)
        ensures
            exists|faces: Seq<usize>|
                valid_hand(faces) && final(self)@ == #[trigger] next(old(self)@, event, faces),
            well_formed(final(self)@),
            phase == final(self)@.phase,
    {
        let mut fresh = Dice::new();
        fresh.reroll_all();
        self.step_with(event, &fresh.current)
    }

    /// Where the game stands.
    pub fn phase(&self) -> (phase: Phase)
        ensures
            phase == self@.phase,
    {
        self.phase
    }

    /// The dice.
    pub fn dice(&self) -> (dice: Dice)
        ensures
            dice.current@ == self@.current,
            dice.keep@ == self@.keep,
    {
        self.dice
    }

    /// The board.
    pub fn score(&self) -> (score: Score)
        ensures
            score@ == self@.slots,
    {
        self.score
    }

    /// How often the player rolled again in this cycle.
    pub fn rerolls(&self) -> (rerolls: u8)
        ensures
            rerolls == self@.rerolls,
    {
        self.rerolls
    }

    /// The slot that the player points at.
    pub fn cursor(&self) -> (cursor: Category)
        ensures
            cursor == self@.cursor,
    {
        self.cursor
    }

    /// The die that the player points at.
    pub fn die_cursor(&self) -> (die_cursor: usize)
        ensures
            die_cursor == self@.die_cursor,
    {
        self.die_cursor
    }
}

} // verus!
