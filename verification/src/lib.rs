//! A single-player game of Yatzy.
//!
//! - [`rules`]: what a hand of five dice is worth in each of the fifteen
//!   categories.
//! - [`dice`]: the hand, the dice that are kept, and the rolls.
//! - [`score`]: the board of fifteen slots that are written once each, with
//!   its subtotal, bonus and total.
//! - [`turn`]: the cycle of a roll, two more rolls and the choice of a slot,
//!   as a machine that takes one [`Event`] at a time.
//! - [`highscore`]: the ledger of finished games, its lines and its ranking.
//! - [`text`]: blanks and decimal numbers as the ledger writes and reads
//!   them.
//!
//! The library draws no picture and reads no key: it is handed events and
//! lines of text, and hands back states and lines of text.

pub mod dice;
pub mod event;
pub mod highscore;
pub mod rules;
pub mod score;
pub mod text;
pub mod turn;

pub use crate::dice::{Dice, DiceSelectStatus};
pub use crate::event::Event;
pub use crate::highscore::{Highscore, HighscoreEntry, LedgerError, NameError};
pub use crate::rules::{Category, ScoreValidator};
pub use crate::score::{AlreadySelected, Score, ScoreCategory, SlotSelectStatus, SlotState};
pub use crate::turn::{Phase, Turn};
