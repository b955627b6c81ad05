//! Global strategies and the request firewall.

pub mod sa_strategy;
pub mod hooks;
pub mod firewall;
pub mod annotation;
