//! Login, logout, sessions, roles, permissions, bans and related models.

pub mod parameter;
pub mod model;
pub mod interface;
pub mod keys;
pub mod logic;
pub mod util;
pub mod async_logic;
pub mod async_util;
