//! A small debugger for traced processes, and a few exercises that came
//! with it.
//!
//! The debugger launches a target under trace control, resumes it, tells
//! its state changes apart and walks its call stack ([`inferior`]); a
//! session maps the operator's commands onto the one inferior that it may
//! hold ([`debugger`], [`debugger_command`]). The exercises are a linked
//! list ([`linked_list`]), a game of hangman ([`hangman`]), a line diff
//! ([`rdiff`], [`grid`]), the bookkeeping of a parallel map
//! ([`parallel_map`]) and some work on vectors ([`warmup`]). [`text`] holds
//! what they share in handling text.

pub mod debugger;
pub mod debugger_command;
pub mod grid;
pub mod hangman;
pub mod inferior;
pub mod linked_list;
pub mod parallel_map;
pub mod rdiff;
pub mod text;
pub mod warmup;
