//! A small grid-pushing puzzle engine: a dense board of tiles, a player that
//! steps around and pushes crates, a set of goal cells, and a win condition
//! that holds once every goal cell carries a crate.

pub mod board;
pub mod handle_vector;
pub mod state;
