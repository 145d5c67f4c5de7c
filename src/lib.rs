//! Git worktree lifecycle management with path-security enforcement, and
//! the agent-task layer built on top of it.
//!
//! The library decides and computes; running git, spawning applications and
//! writing the JSON stores is left to its caller, which hands the results
//! back as plain values.

mod system;

pub mod text;
pub mod lines;
pub mod numbers;
pub mod paths;
pub mod security;
pub mod naming;
pub mod types;
pub mod porcelain;
pub mod inventory;
pub mod git;
pub mod repositories;
pub mod tasks;
pub mod launch;
pub mod logs;
