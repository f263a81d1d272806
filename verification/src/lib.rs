//! A small text-adventure core: a world graph of rooms joined by directed
//! exits, the characters and players that live in it, and the pipeline that
//! turns a line of input into a queued, validated change of the world.
//!
//! Nothing here owns anything through a reference. A [`game::Game`] owns its
//! worlds and players, a world owns its rooms and characters, and whatever
//! points from one entity to another (an exit to its destination, a
//! character to its room and its owner, a player to its character, a
//! queued action to the character it moves) is an id that is looked up
//! when it is needed. Every type has a mathematical value, its view, and
//! every function says what it does to these values.

pub mod action;
pub mod area;
pub mod game;
pub mod socium;
pub mod text;
pub mod utils;
