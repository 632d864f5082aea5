//! Verified core of `lab`, an ephemeral workspace manager.

pub mod text;
pub mod util;
pub mod git;
pub mod script;
pub mod line_edit;
pub mod words;
pub mod dialogs;
pub mod sys;
pub mod fuzzy;
pub mod entries;
pub mod shell;
pub mod cli;
pub mod commands;
pub mod dispatch;
pub mod labs;
pub mod tui;
