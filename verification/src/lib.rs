//! Core logic of a terminal log viewer: text matching, filtering, searching,
//! marking, event tracking, navigation state and line visibility.
use vstd::prelude::*;

pub mod app;
pub mod app_commands;
pub mod app_events;
pub mod app_highlights;
pub mod app_rules;
pub mod app_selection;
pub mod app_steps;
pub mod cli;
pub mod command;
pub mod completion;
pub mod config;
pub mod display_options;
pub mod event_mark_view;
pub mod expansion;
pub mod file_manager;
pub mod filter;
pub mod help;
pub mod highlighter;
pub mod history;
pub mod keybindings;
pub mod list_view_state;
pub mod log;
pub mod log_event;
pub mod log_processor;
pub mod marking;
pub mod matcher;
pub mod options;
pub mod persistence;
pub mod processing;
pub mod resolver;
pub mod search;
pub mod sorting;
pub mod time_filter;
pub mod timeline;
pub mod timestamp;
pub mod utils;
pub mod version;
pub mod viewport;

verus! {

} // verus!
