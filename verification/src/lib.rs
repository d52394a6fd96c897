//! Decision core of a Matrix chat bot that talks through a Markov generator.
//!
//! Everything the bot decides or computes lives here: which messages it answers
//! and how, which filters run over a generated text, who may run which console
//! command, what the commands print, which rooms and files a message leads to.
//! Network, disk, clocks and random probabilities stay with the program that
//! uses this library.

pub mod bot;
pub mod calendar;
pub mod chance;
pub mod clock;
pub mod commands;
pub mod config;
pub mod console;
pub mod crawler;
pub mod filter;
pub mod filters;
pub mod ids;
pub mod names;
pub mod number;
pub mod pattern;
pub mod table;
pub mod text;
pub mod tweak;
