//! Healing a broken cluster: what is wrong with it, and how it is put together
//! again from the machines that still answer.
pub mod apps;
pub mod credentials;
pub mod drive;
pub mod fleet;
pub mod ground;
pub mod identity;
pub mod member;
pub mod network;
pub mod page;
pub mod peers;
pub mod rebuild;
pub mod reinstall;
pub mod reinstaller;
pub mod repair;
pub mod repairer;
pub mod run;
pub mod steps;
pub mod survey;
pub mod switch;
