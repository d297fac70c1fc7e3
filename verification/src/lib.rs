//! Verified core of `mytop`, a terminal monitor for MySQL threads and server status.
pub mod commands;
pub mod data;
pub mod filters;
pub mod help;
pub mod interactive;
pub mod introspection;
pub mod loop_modes;
pub mod output;
pub mod sorted_map;
pub mod startup;
pub mod summaries;
pub mod text;
pub mod top_view;
pub mod utils;
