//! A live diff viewer for the git repos that herdr panes are working in.

pub mod app;
pub mod cli;
pub mod diff;
pub mod git;
pub mod git_output;
pub mod git_run;
pub mod git_write;
pub mod herdr;
pub mod highlight;
pub mod input;
pub mod json;
pub mod keys;
pub mod laws;
pub mod laws_app;
pub mod laws_calls;
pub mod laws_cli;
pub mod laws_diff;
pub mod laws_git;
pub mod laws_herdr;
pub mod laws_highlight;
pub mod laws_keys;
pub mod laws_loop;
pub mod laws_model;
pub mod laws_repo;
pub mod laws_state;
pub mod laws_text;
pub mod laws_ui;
pub mod laws_values;
pub mod laws_view;
pub mod laws_worker;
pub mod laws_write;
pub mod model;
pub mod mouse;
pub mod paths;
pub mod scope;
pub mod screen;
pub mod text;
pub mod tui;
pub mod ui;
pub mod ui_diff;
pub mod ui_status;
pub mod worker;
