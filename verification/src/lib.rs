//! The decisions of a home server's local API: which disks become storage, how
//! a broken cluster is healed, which paths between machines are direct, who may
//! call, what is remembered and what is reported.
//!
//! Nothing here touches the machine. Where a decision needs an answer from
//! outside, it names the question (`effects::Ask`) and goes on from the answers
//! it has been given (`effects::Script`).
pub mod auth;
pub mod boot;
pub mod cache;
pub mod ceph;
pub mod ceph_cli;
pub mod cephfs;
pub mod charts;
pub mod conf;
pub mod config;
pub mod controllers;
pub mod cron;
pub mod csi;
pub mod disks;
pub mod double;
pub mod effects;
pub mod error;
pub mod exec;
pub mod heal;
pub mod host;
pub mod http;
pub mod ip;
pub mod json;
pub mod kubectl;
pub mod lease;
pub mod loop_osd;
pub mod mesh;
pub mod model;
pub mod names;
pub mod notify;
pub mod ops;
pub mod paths;
pub mod priority;
pub mod runtime;
pub mod settings;
pub mod stamps;
pub mod table;
pub mod text;
pub mod time;
