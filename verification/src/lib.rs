//! A developer toolkit library: source-tree complexity scanning (a line
//! classifier and a tree-scan aggregator), environment tool checks, git
//! repository statistics, and dependency counting.

pub mod check;
pub mod classify;
pub mod complexity;
pub mod dependencies;
pub mod git;
pub mod text;
