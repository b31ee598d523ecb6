//! Decision logic of a reaper for stale archive (XAR) FUSE mounts: lock-file
//! discovery, mount-table parsing, the staleness procedure, namespace
//! bookkeeping and the choice of unmount strategy.
pub mod text;
pub mod mtab;
pub mod lockfile;
pub mod staleness;
pub mod namespaces;
pub mod driver;
