//! Disks: what a machine's disks are, which of them become storage, and how they
//! leave it again.
pub mod board;
pub mod controller;
pub mod create;
pub mod device;
pub mod disk;
pub mod lvm;
pub mod plan;
pub mod publish;
pub mod setup;
pub mod steer;
pub mod tick;
pub mod unit;
