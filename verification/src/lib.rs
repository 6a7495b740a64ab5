//! Keeps the directory structure of two filesystem trees mirrored:
//! enumeration with subtree-pruning exclusion, set-based diffing,
//! idempotent directory creation with bounded retry, and echo-suppressed
//! live mirroring of newly created directories.

pub mod dirset;
pub mod filter;
pub mod output;
pub mod paths;
pub mod sync;
pub mod walk;
pub mod watch;
