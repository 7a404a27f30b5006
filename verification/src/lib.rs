//! Named buckets of date-stamped working directories.
//!
//! A bucket is a base directory with a name. The registry keeps the buckets in
//! the order in which they were added, together with the name of the bucket
//! that is used when none is chosen. Everything here works on values in
//! memory: reading and writing files is left to the caller.

pub mod commands;
pub mod errors;
pub mod listing;
pub mod naming;
pub mod registry;
pub mod store;
