//! Verified core of an interactive terminal that answers questions from a
//! document collection.
//!
//! Every decision of the terminal is made here, on plain values: what a line
//! of input means, which engine a name stands for, where a document from the
//! web goes, what happens after an overflow, and which words are shown. A
//! command is a value ([`command::Command`]), and what it leads to is a value
//! too ([`session::Step`]); a program around the library carries the steps out.

pub mod ansi;
pub mod attach;
pub mod backends;
pub mod chat;
pub mod command;
pub mod config;
pub mod console;
pub mod corpora;
pub mod corpus;
pub mod embed;
pub mod history;
pub mod indexing;
pub mod log;
pub mod memory;
pub mod number;
pub mod papers;
pub mod parsers;
pub mod profile;
pub mod progress;
pub mod prompt;
pub mod purge;
pub mod query;
pub mod ranges;
pub mod search;
pub mod session;
pub mod startup;
pub mod text;
