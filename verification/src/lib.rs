//! A terminal bingo game, with its state transitions verified: a 5x5 card is
//! drawn at random from a pool of labels, the player moves a cursor and
//! toggles marks, and the game detects a fully marked row or column.
pub mod card;
pub mod game;
pub mod render;
