//! Pick a window of a terminal multiplexer, or bring back a closed session,
//! from one list.
//!
//! `tmux::snapshot` reads the multiplexer's list of panes into sessions,
//! windows and panes. `fzf` lays the snapshot and the dead sessions out as
//! the feed of a picker, and `feed` states what holds of every feed. `run`
//! reads the picker's answer and decides what is done about it. Everything
//! here computes on values; running the multiplexer and the picker is left
//! to the caller.

pub mod config;
pub mod feed;
pub mod fzf;
pub mod measure;
pub mod number;
pub mod order;
pub mod path;
pub mod run;
pub mod style;
pub mod term;
pub mod text;
pub mod tmux;
