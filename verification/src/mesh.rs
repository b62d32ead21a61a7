//! Direct paths between the machines of a cluster.
pub mod candidates;
pub mod discovery;
pub mod paths;
pub mod wg;
