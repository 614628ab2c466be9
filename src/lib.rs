//! Android application state management through the device bridge: backup
//! and restore of packages into archive containers, a per-device package
//! cache with diffs, and the device operations around them.
//!
//! The library performs no I/O. Device operations are functions of the
//! bridge replies received so far (`transport::Step`); backup and restore
//! are state machines whose pending actions the caller performs.

pub mod text;
pub mod clock;
pub mod order;
pub mod transport;
pub mod device;
pub mod backup;
pub mod restore;
pub mod device_cache;
pub mod seed_data;
pub mod package_db;
pub mod sideload;
