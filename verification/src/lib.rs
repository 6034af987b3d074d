//! The core of a command-line task tracker: the command grammar, the statements
//! sent to the store, the ordering and rendering of listings, and the countdown
//! timer's frames.
//!
//! Apart from the clock, nothing here reads or writes: a caller hands in what
//! it read (the command line, a line of input, the rows of a query, the size
//! of the terminal) and gets back what to do (statements to run, words to
//! report, lines to show).
//!
//! # What is proved
//!
//! Every function is verified against its contract, and none of them panics.
//! Taken on trust are the calls that leave the library: `chrono` for the time
//! of day and for reading a day, `figlet_rs` for large letters, and of the
//! standard library `String::push`, `char::is_whitespace` and
//! `str::to_lowercase`. That the grammar in `command` accepts the lines that
//! `clap` accepts for the same subcommands is tested, not proved.

pub mod command;
pub mod database;
pub mod handlers;
pub mod listing;
pub mod number;
pub mod operations;
pub mod order;
pub mod settings;
pub mod shell;
pub mod text;
