//! A small to-do list library: a single-table item store backed by an
//! embedded SQLite database, with paginated listing and simple mutations.
//!
//! The store's contents are modelled as a sequence of rows in descending-id
//! order; every operation's contract says what it does to that sequence.

pub mod commands;
pub mod database;
pub mod model;
