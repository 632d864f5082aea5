//! What the subcommands do, apart from reading the environment and writing
//! their output.

pub mod cd;
pub mod clone;
pub mod install;
pub mod worktree;
