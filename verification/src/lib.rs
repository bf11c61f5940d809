//! Verified core of gitgobig: parsing of git's porcelain output, planning of
//! the git commands behind each operation, tracked-repository state, commit
//! graph layout, commit search and the decisions of the graphical front ends.

pub mod text;
pub mod types;
pub mod git;
pub mod state;
pub mod graph;
pub mod log;
pub mod order;
pub mod search;
pub mod history;
pub mod manager;
pub mod cli;
