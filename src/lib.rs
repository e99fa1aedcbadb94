//! Playing cards of the French and Spanish traditions: ranks, suits, cards,
//! a text rendering of a single card, and decks that can be built, shuffled,
//! drawn from and added to.
pub mod rank;
pub mod suit;
pub mod card;
pub mod deck;
