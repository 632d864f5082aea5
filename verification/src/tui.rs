//! The selector: its state, dialogs, key handling, key injection, layout,
//! and how a run goes.

pub mod app;
pub mod input;
pub mod render;
pub mod test_keys;

use vstd::prelude::*;
use crate::tui::app::{DeleteSelection, GraduateSelection, RenameSelection};

verus! {

/// Options for a selector run.
#[derive(Debug, Clone, Copy)]
pub struct RunOptions<'a> {
    /// Render one frame and exit after processing any injected keys.
    pub and_exit: bool,
    /// Optional injected test key sequence.
    pub and_keys: Option<&'a str>,
    /// Whether test-key infrastructure should be used.
    pub use_test_source: bool,
}

/// Outcome produced by the selector.
#[derive(Debug, Clone, PartialEq, Eq)]
pub enum TuiOutcome {
    /// Existing entry selected.
    Selected(String),
    /// Virtual create-new entry selected.
    Create(String),
    /// Plain directory creation requested for the current input.
    Mkdir(String),
    /// Confirmed batch deletion of marked entries.
    Delete(DeleteSelection),
    /// Confirmed rename of the selected entry.
    Rename(RenameSelection),
    /// Confirmed graduation of the selected entry.
    Graduate(GraduateSelection),
    /// Selector cancelled.
    Cancelled,
}

/// How a selector run goes.
#[derive(Debug, Clone, Copy, PartialEq, Eq, Structural)]
pub enum RunMode {
    /// An interactive run without a terminal on stdin and stderr: refuse.
    NeedsTerminal,
    /// Draw one frame and cancel.
    DrawOnce,
    /// Feed the injected keys (then Esc) until an outcome; draw the final
    /// frame when `draw_after` holds.
    Scripted {
        /// Whether to draw the screen after the outcome.
        draw_after: bool,
    },
    /// Read keys from the terminal until an outcome.
    Interactive,
}

/// Decide how the selector runs, given the options and whether stdin and
/// stderr are terminals.
pub fn run_mode(options: RunOptions, stdin_is_terminal: bool, stderr_is_terminal: bool) -> (r: RunMode)
    ensures
        r == if !options.use_test_source && !(stdin_is_terminal && stderr_is_terminal) {
            RunMode::NeedsTerminal
        } else if options.and_exit && options.and_keys is None {
            RunMode::DrawOnce
        } else if options.use_test_source {
            RunMode::Scripted { draw_after: options.and_exit }
        } else {
            RunMode::Interactive
        },
{
    if !options.use_test_source && !(stdin_is_terminal && stderr_is_terminal) {
        RunMode::NeedsTerminal
    } else if options.and_exit && options.and_keys.is_none() {
        RunMode::DrawOnce
    } else if options.use_test_source {
        RunMode::Scripted { draw_after: options.and_exit }
    } else {
        RunMode::Interactive
    }
}

} // verus!
