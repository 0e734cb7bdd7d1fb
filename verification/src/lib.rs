//! Rules engine of a dice-bluffing game for a small table of players.
//!
//! Every player holds a hand of dice. The player to move either raises the
//! standing bet on how many dice on the whole table show some face, or calls
//! it. A call is settled by counting: whoever was wrong gives up a die, all
//! hands are thrown again and the next round begins. The last player who
//! still holds dice wins.
//!
//! - [`table`] states the rules, over the table as a mathematical value.
//! - [`laws`] proves what follows from them.
//! - [`game`] holds the game in memory and carries the rules out.
//! - [`dice`] throws the dice.
//! - [`error`] names the reasons an action is turned down for.
//! - [`ai`] plays the opponents, and [`controls`] keeps the bet that the
//!   player at the controls is putting together.

pub mod ai;
pub mod controls;
pub mod dice;
pub mod error;
pub mod game;
pub mod laws;
pub mod table;
