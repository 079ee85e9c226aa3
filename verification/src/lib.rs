//! Noughts and crosses on the fixed 3x3 grid: the board and its rules, a
//! move-choosing engine, and the console collaborators around them.
//!
//! Nothing in this crate performs I/O. A front end reads the terminal and
//! writes to it; the crate decides what is legal, who has won, which move
//! the engine plays and what text is shown.

pub mod ai;
pub mod board;
pub mod console_input;
pub mod console_io;
pub mod console_output;
pub mod console_reader;
pub mod console_writer;
pub mod game;
pub mod menu;
pub mod mock_io;
pub mod player;
pub mod text;
