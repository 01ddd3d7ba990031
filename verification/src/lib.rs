//! Planning and decision logic for provisioning Kubernetes clusters on cloud VMs.

pub mod command;
pub mod containerd;
pub mod cp;
pub mod endpoint;
pub mod http;
pub mod ip;
pub mod json;
pub mod mapper;
pub mod provider;
pub mod registry;
pub mod rule;
pub mod session;
pub mod spec;
pub mod ssh;
pub mod state;
pub mod structs;
pub mod text;
pub mod utils;
