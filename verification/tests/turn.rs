use rusty_yacht::{Category, Event, Phase, ScoreValidator, SlotState, Turn};

fn rolled(faces: [usize; 5]) -> Turn {
    let mut turn = Turn::new();
    assert_eq!(turn.step_with(Event::Confirm, &faces), Phase::Rerolling);
    turn
}

fn placing(faces: [usize; 5]) -> Turn {
    let mut turn = rolled([1, 1, 1, 1, 1]);
    assert_eq!(turn.step_with(Event::Confirm, &[1, 1, 1, 1, 1]), Phase::Rerolling);
    assert_eq!(turn.step_with(Event::Confirm, &faces), Phase::AwaitingSlotSelection);
    turn
}

#[test]
fn new_game_waits_for_the_first_roll() {
    let turn = Turn::new();
    assert_eq!(turn.phase(), Phase::AwaitingRoll);
    assert_eq!(turn.rerolls(), 0);
    assert_eq!(turn.cursor(), Category::Ones);
    assert_eq!(turn.die_cursor(), 0);
    assert_eq!(turn.dice().current, [0; 5]);
    assert_eq!(turn.dice().keep, [false; 5]);
    assert_eq!(turn.score().total(), 0);
    assert!(!turn.score().is_final());
}

#[test]
fn waiting_game_takes_confirm_and_cancel_only() {
    let mut turn = Turn::new();
    for event in [
        Event::MoveCursorUp,
        Event::MoveCursorDown,
        Event::MoveCursorLeft,
        Event::MoveCursorRight,
        Event::ToggleKeep(2),
        Event::StrikeSlot,
    ] {
        assert_eq!(turn.step_with(event, &[6, 6, 6, 6, 6]), Phase::AwaitingRoll);
        assert_eq!(turn.dice().current, [0; 5]);
        assert_eq!(turn.dice().keep, [false; 5]);
        assert_eq!(turn.cursor(), Category::Ones);
        assert_eq!(turn.die_cursor(), 0);
    }
    assert_eq!(turn.step_with(Event::Cancel, &[6, 6, 6, 6, 6]), Phase::Cancelled);
    assert_eq!(turn.dice().current, [0; 5]);
}

#[test]
fn first_roll_leads_to_the_choice_of_dice() {
    let turn = rolled([1, 1, 2, 2, 3]);
    assert_eq!(turn.phase(), Phase::Rerolling);
    assert_eq!(turn.dice().current, [1, 1, 2, 2, 3]);
    assert_eq!(turn.dice().keep, [false; 5]);
    assert_eq!(turn.rerolls(), 0);
    assert_eq!(turn.die_cursor(), 0);
}

#[test]
fn two_rerolls_lead_to_the_choice_of_a_slot() {
    let mut turn = rolled([1, 1, 2, 2, 3]);
    assert_eq!(turn.step_with(Event::ToggleKeep(0), &[6, 6, 6, 6, 6]), Phase::Rerolling);
    assert_eq!(turn.step_with(Event::MoveCursorRight, &[6, 6, 6, 6, 6]), Phase::Rerolling);
    assert_eq!(turn.die_cursor(), 1);
    assert_eq!(turn.step_with(Event::ToggleKeep(1), &[6, 6, 6, 6, 6]), Phase::Rerolling);
    assert_eq!(turn.dice().keep, [true, true, false, false, false]);
    assert_eq!(turn.dice().current, [1, 1, 2, 2, 3]);
    assert_eq!(turn.step_with(Event::Confirm, &[6, 6, 6, 5, 4]), Phase::Rerolling);
    assert_eq!(turn.dice().current, [1, 1, 6, 5, 4]);
    assert_eq!(turn.dice().keep, [true, true, false, false, false]);
    assert_eq!(turn.rerolls(), 1);
    assert_eq!(turn.die_cursor(), 0);
    assert_eq!(turn.step_with(Event::ToggleKeep(0), &[6, 6, 6, 6, 6]), Phase::Rerolling);
    assert_eq!(turn.dice().keep, [false, true, false, false, false]);
    assert_eq!(turn.step_with(Event::Confirm, &[3, 3, 3, 1, 1]), Phase::AwaitingSlotSelection);
    assert_eq!(turn.dice().current, [3, 1, 3, 1, 1]);
    assert_eq!(turn.dice().keep, [false, true, false, false, false]);
    assert_eq!(turn.rerolls(), 2);
    assert_eq!(turn.cursor(), Category::Ones);
}

#[test]
fn keeping_all_dice_leads_to_the_choice_of_a_slot() {
    let mut turn = rolled([4, 4, 4, 4, 4]);
    for die in 0..5 {
        assert_eq!(turn.step_with(Event::ToggleKeep(die), &[1, 2, 3, 4, 5]), Phase::Rerolling);
    }
    assert_eq!(turn.step_with(Event::Confirm, &[1, 2, 3, 4, 5]), Phase::AwaitingSlotSelection);
    assert_eq!(turn.dice().current, [4, 4, 4, 4, 4]);
    assert_eq!(turn.dice().keep, [true; 5]);
    assert_eq!(turn.rerolls(), 0);
}

#[test]
fn choice_of_dice_ignores_what_belongs_to_slots() {
    let mut turn = rolled([1, 1, 2, 2, 3]);
    assert_eq!(turn.step_with(Event::StrikeSlot, &[6, 6, 6, 6, 6]), Phase::Rerolling);
    assert_eq!(turn.step_with(Event::ToggleKeep(7), &[6, 6, 6, 6, 6]), Phase::Rerolling);
    assert_eq!(turn.dice().current, [1, 1, 2, 2, 3]);
    assert_eq!(turn.dice().keep, [false; 5]);
    assert_eq!(turn.score().total(), 0);
    assert_eq!(turn.step_with(Event::Cancel, &[6, 6, 6, 6, 6]), Phase::Cancelled);
    assert_eq!(turn.dice().current, [1, 1, 2, 2, 3]);
}

#[test]
fn points_end_the_cycle() {
    let mut turn = placing([1, 1, 2, 2, 3]);
    assert_eq!(turn.step_with(Event::MoveCursorDown, &[6, 6, 6, 6, 6]), Phase::AwaitingSlotSelection);
    assert_eq!(turn.cursor(), Category::Twos);
    assert_eq!(turn.step_with(Event::Confirm, &[6, 5, 4, 3, 2]), Phase::AwaitingRoll);
    assert_eq!(turn.score().state(Category::Twos), SlotState::Filled(4));
    assert_eq!(turn.score().total(), 4);
    assert_eq!(turn.dice().current, [6, 5, 4, 3, 2]);
    assert_eq!(turn.dice().keep, [false; 5]);
    assert_eq!(turn.rerolls(), 0);
    assert_eq!(turn.step_with(Event::Confirm, &[1, 2, 3, 4, 5]), Phase::Rerolling);
    assert_eq!(turn.dice().current, [1, 2, 3, 4, 5]);
    assert_eq!(turn.rerolls(), 0);
}

#[test]
fn strike_ends_the_cycle() {
    let mut turn = placing([1, 1, 2, 2, 3]);
    assert_eq!(turn.step_with(Event::MoveCursorUp, &[6, 6, 6, 6, 6]), Phase::AwaitingSlotSelection);
    assert_eq!(turn.cursor(), Category::Yatzy);
    assert_eq!(turn.step_with(Event::StrikeSlot, &[6, 5, 4, 3, 2]), Phase::AwaitingRoll);
    assert_eq!(turn.score().state(Category::Yatzy), SlotState::Struck);
    assert_eq!(turn.score().total(), 0);
    assert_eq!(turn.dice().current, [6, 5, 4, 3, 2]);
}

#[test]
fn choice_that_does_not_apply_changes_nothing() {
    let mut turn = placing([1, 1, 2, 2, 3]);
    assert_eq!(turn.step_with(Event::MoveCursorUp, &[6, 6, 6, 6, 6]), Phase::AwaitingSlotSelection);
    assert_eq!(turn.step_with(Event::Confirm, &[6, 6, 6, 6, 6]), Phase::SlotInvalid);
    assert_eq!(turn.cursor(), Category::Yatzy);
    assert_eq!(turn.score().state(Category::Yatzy), SlotState::Empty);
    assert_eq!(turn.dice().current, [1, 1, 2, 2, 3]);
    assert_eq!(turn.step_with(Event::Confirm, &[6, 6, 6, 6, 6]), Phase::SlotInvalid);
    assert_eq!(turn.step_with(Event::MoveCursorLeft, &[6, 6, 6, 6, 6]), Phase::AwaitingSlotSelection);
    assert_eq!(turn.cursor(), Category::Chance);
    assert_eq!(turn.step_with(Event::MoveCursorRight, &[6, 6, 6, 6, 6]), Phase::AwaitingSlotSelection);
    assert_eq!(turn.step_with(Event::Confirm, &[6, 6, 6, 6, 6]), Phase::SlotInvalid);
    assert_eq!(turn.step_with(Event::StrikeSlot, &[6, 6, 6, 6, 6]), Phase::AwaitingRoll);
    assert_eq!(turn.score().state(Category::Yatzy), SlotState::Struck);
}

#[test]
fn used_slot_changes_nothing() {
    let mut turn = placing([1, 1, 2, 2, 3]);
    assert_eq!(turn.step_with(Event::Confirm, &[2, 2, 2, 2, 2]), Phase::AwaitingRoll);
    assert_eq!(turn.score().state(Category::Ones), SlotState::Filled(2));
    assert_eq!(turn.step_with(Event::Confirm, &[1, 1, 1, 1, 1]), Phase::Rerolling);
    for die in 0..5 {
        assert_eq!(turn.step_with(Event::ToggleKeep(die), &[6, 6, 6, 6, 6]), Phase::Rerolling);
    }
    assert_eq!(turn.step_with(Event::Confirm, &[6, 6, 6, 6, 6]), Phase::AwaitingSlotSelection);
    assert_eq!(turn.cursor(), Category::Ones);
    assert_eq!(turn.step_with(Event::Confirm, &[6, 6, 6, 6, 6]), Phase::SlotAlreadySelected);
    assert_eq!(turn.score().state(Category::Ones), SlotState::Filled(2));
    assert_eq!(turn.dice().current, [1, 1, 1, 1, 1]);
    for event in [Event::MoveCursorLeft, Event::MoveCursorRight, Event::StrikeSlot, Event::ToggleKeep(0)] {
        assert_eq!(turn.step_with(event, &[6, 6, 6, 6, 6]), Phase::SlotAlreadySelected);
        assert_eq!(turn.cursor(), Category::Ones);
    }
    assert_eq!(turn.step_with(Event::Confirm, &[6, 6, 6, 6, 6]), Phase::AwaitingSlotSelection);
    assert_eq!(turn.cursor(), Category::Ones);
    assert_eq!(turn.step_with(Event::StrikeSlot, &[6, 6, 6, 6, 6]), Phase::AwaitingSlotSelection);
    assert_eq!(turn.score().state(Category::Ones), SlotState::Filled(2));
    assert_eq!(turn.step_with(Event::Confirm, &[6, 6, 6, 6, 6]), Phase::SlotAlreadySelected);
    assert_eq!(turn.step_with(Event::MoveCursorDown, &[6, 6, 6, 6, 6]), Phase::AwaitingSlotSelection);
    assert_eq!(turn.cursor(), Category::Twos);
    assert_eq!(turn.score().total(), 2);
}

#[test]
fn cancel_leaves_the_game_while_a_slot_is_chosen() {
    let mut turn = placing([1, 1, 2, 2, 3]);
    assert_eq!(turn.step_with(Event::Cancel, &[6, 6, 6, 6, 6]), Phase::Cancelled);
    assert_eq!(turn.score().total(), 0);
    for event in [Event::Confirm, Event::StrikeSlot, Event::MoveCursorDown, Event::ToggleKeep(0), Event::Cancel] {
        assert_eq!(turn.step_with(event, &[6, 6, 6, 6, 6]), Phase::Cancelled);
    }
    assert_eq!(turn.dice().current, [1, 1, 2, 2, 3]);
    assert_eq!(turn.score().total(), 0);
    assert_eq!(turn.cursor(), Category::Ones);
}

#[test]
fn game_ends_when_the_board_is_full() {
    let mut turn = Turn::new();
    for (i, category) in ScoreValidator::new().iter().enumerate() {
        assert_eq!(turn.phase(), Phase::AwaitingRoll);
        assert!(!turn.score().is_final());
        assert_eq!(turn.step_with(Event::Confirm, &[6, 6, 6, 6, 6]), Phase::Rerolling);
        assert_eq!(turn.step_with(Event::Confirm, &[6, 6, 6, 6, 6]), Phase::Rerolling);
        assert_eq!(turn.step_with(Event::Confirm, &[6, 6, 6, 6, 6]), Phase::AwaitingSlotSelection);
        for _ in 0..i {
            assert_eq!(turn.step_with(Event::MoveCursorDown, &[6, 6, 6, 6, 6]), Phase::AwaitingSlotSelection);
        }
        assert_eq!(turn.cursor(), *category);
        let offered = ScoreValidator::score(*category, &[6, 6, 6, 6, 6]);
        let event = if offered.is_some() { Event::Confirm } else { Event::StrikeSlot };
        let phase = turn.step_with(event, &[1, 2, 3, 4, 5]);
        assert_eq!(phase, if i < 14 { Phase::AwaitingRoll } else { Phase::GameOver });
    }
    assert!(turn.score().is_final());
    assert_eq!(turn.score().subtotal(), 30);
    assert_eq!(turn.score().bonus(), Some(0));
    assert_eq!(turn.score().total(), 30 + 12 + 18 + 24 + 30 + 50);
    assert_eq!(turn.dice().current, [6, 6, 6, 6, 6]);
    for event in [Event::Confirm, Event::StrikeSlot, Event::MoveCursorDown, Event::ToggleKeep(0), Event::Cancel] {
        assert_eq!(turn.step_with(event, &[1, 2, 3, 4, 5]), Phase::GameOver);
    }
    assert_eq!(turn.score().total(), 164);
}

#[test]
fn step_rolls_the_dice() {
    for _ in 0..100 {
        let mut turn = Turn::new();
        assert_eq!(turn.step(Event::Confirm), Phase::Rerolling);
        assert!(turn.dice().is_rolled());
        let first = turn.dice().current;
        assert_eq!(turn.step(Event::ToggleKeep(1)), Phase::Rerolling);
        assert_eq!(turn.step(Event::ToggleKeep(3)), Phase::Rerolling);
        assert_eq!(turn.dice().current, first);
        assert_eq!(turn.step(Event::Confirm), Phase::Rerolling);
        assert!(turn.dice().is_rolled());
        assert_eq!(turn.dice().current[1], first[1]);
        assert_eq!(turn.dice().current[3], first[3]);
        assert_eq!(turn.step(Event::Confirm), Phase::AwaitingSlotSelection);
        assert!(turn.dice().is_rolled());
        assert_eq!(turn.dice().current[1], first[1]);
        assert_eq!(turn.dice().current[3], first[3]);
        let hand = turn.dice().current;
        for _ in 0..13 {
            assert_eq!(turn.step(Event::MoveCursorDown), Phase::AwaitingSlotSelection);
        }
        assert_eq!(turn.cursor(), Category::Chance);
        assert_eq!(turn.step(Event::Confirm), Phase::AwaitingRoll);
        assert_eq!(turn.score().total(), hand.iter().sum::<usize>());
        assert!(turn.dice().is_rolled());
        assert_eq!(turn.dice().keep, [false; 5]);
    }
}

#[test]
fn random_game_ends_with_a_full_board() {
    let mut turn = Turn::new();
    let mut steps = 0;
    while turn.phase() != Phase::GameOver {
        let event = match turn.phase() {
            Phase::AwaitingRoll | Phase::Rerolling => Event::Confirm,
            Phase::AwaitingSlotSelection => {
                if turn.score().state(turn.cursor()) == SlotState::Empty {
                    Event::Confirm
                } else {
                    Event::MoveCursorDown
                }
            }
            Phase::SlotInvalid => Event::StrikeSlot,
            phase => panic!("the game cannot be in {:?}", phase),
        };
        turn.step(event);
        steps += 1;
        assert!(steps < 1000);
        assert!(turn.score().total() <= 374);
    }
    assert!(turn.score().is_final());
    assert!(turn.score().bonus().is_some());
}

#[test]
fn strike_of_a_category_that_applies_changes_nothing() {
    let mut turn = placing([1, 1, 2, 2, 3]);
    assert_eq!(turn.cursor(), Category::Ones);
    assert_eq!(turn.step_with(Event::StrikeSlot, &[6, 5, 4, 3, 2]), Phase::AwaitingSlotSelection);
    assert_eq!(turn.score().state(Category::Ones), SlotState::Empty);
    assert_eq!(turn.dice().current, [1, 1, 2, 2, 3]);
    assert_eq!(turn.cursor(), Category::Ones);
    assert_eq!(turn.rerolls(), 2);
    assert_eq!(turn.step_with(Event::MoveCursorUp, &[6, 5, 4, 3, 2]), Phase::AwaitingSlotSelection);
    assert_eq!(turn.step_with(Event::MoveCursorUp, &[6, 5, 4, 3, 2]), Phase::AwaitingSlotSelection);
    assert_eq!(turn.cursor(), Category::Chance);
    assert_eq!(turn.step_with(Event::StrikeSlot, &[6, 5, 4, 3, 2]), Phase::AwaitingSlotSelection);
    assert_eq!(turn.score().state(Category::Chance), SlotState::Empty);
    assert_eq!(turn.score().total(), 0);
    assert_eq!(turn.step_with(Event::Confirm, &[6, 5, 4, 3, 2]), Phase::AwaitingRoll);
    assert_eq!(turn.score().state(Category::Chance), SlotState::Filled(9));
}
