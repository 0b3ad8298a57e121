//! Verified core of a directory-mirroring backup worker.
//!
//! The library holds the logic of the worker: templated snapshot-folder
//! naming, resolution of a source file to its destination inside the backup
//! tree, trailing-edge debouncing of change notifications, the periodic-scan
//! boundary rule, and the wording of the append-only log. Strings are byte
//! strings (`Vec<u8>`) and filesystem paths are lists of components
//! (`Vec<Vec<u8>>`); the host program converts at the edge and performs the
//! actual filesystem work.

pub mod bytes;
pub mod clock;
pub mod config;
pub mod debounce;
pub mod formatter;
pub mod paths;
pub mod report;
pub mod scan;
pub mod target;
