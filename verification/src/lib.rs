//! Token-based login, session and authorization rules, with the small
//! string and URL helpers they are built from.

pub mod text;
pub mod util;
pub mod num;
pub mod store;
pub mod json;
pub mod session;
pub mod dao;
pub mod dao_moka;
pub mod dao_redis;
pub mod sweeper;
pub mod exception;
pub mod config;
pub mod context;
pub mod stp;
pub mod strategy;
pub mod temp;
