//! Verified core of a file-tailing utility: computing the last N lines of a
//! file with line-ending normalization, and the decision logic of a polling
//! follow loop that survives rotation and truncation.

pub mod args;
pub mod console;
pub mod follow;
pub mod lines;
pub mod tail;
