//! A two-player falling-word typing game: the game engine, the one-byte
//! control protocol, and the decision logic of the relay that pairs two
//! players. Everything here is pure logic over plain values; sockets,
//! channels, the terminal and the clock belong to the program around it.

pub mod enums;
pub mod random;
pub mod text;
pub mod vocab;
pub mod word;
pub mod placement;
pub mod model;
pub mod game;
pub mod relay;
pub mod lobby;
pub mod session;
