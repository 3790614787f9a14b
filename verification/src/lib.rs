//! Disk-space guardian for a file cache directory.
//!
//! The library decides, from a reading of the volume that hosts the cache,
//! whether the cache is under space pressure, and if so selects the
//! least-recently-accessed tenth of the cached files for removal. All
//! decisions are pure functions over plain values; the surrounding program
//! queries the filesystem, feeds the readings and directory entries in, and
//! carries out the deletions that the plan calls for.

pub mod laws;
pub mod order;
pub mod plan;
pub mod record;
pub mod scan;
pub mod space;
