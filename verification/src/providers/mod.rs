//! Facts about the process and the machine, assembled from what the
//! operating system reports.
pub mod identity;
pub mod network;
pub mod runtime;
