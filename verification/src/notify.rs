//! Notifications on the phone, through a server on every machine.
pub mod address;
pub mod alerts;
pub mod backups;
pub mod dns;
pub mod notifier;
pub mod send;
pub mod topic;
