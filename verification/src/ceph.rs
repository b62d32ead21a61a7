//! Ceph: what it reports, and the commands that destroy.
pub mod destructive;
pub mod model;
