//! A single-player blackjack engine: a round state machine over a shoe of
//! cards, with verified hand evaluation, table rules and settlement.

pub mod blackjack;
pub mod card;
pub mod hand;
pub mod rules;
pub mod shoe;
pub mod state;
pub mod statistics;
pub mod turn;
