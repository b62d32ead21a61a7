//! What this machine does at its start, outside the storage.
pub mod banner;
pub mod csi_recovery;
pub mod dispatch;
pub mod node_ip;
