//! General-purpose helpers.

pub mod fox_util;
pub mod hex_util;
pub mod str_formatter;
pub mod consts;
pub mod sa_result;
pub mod sugar;
pub mod ttl_methods;
pub mod value2_box;
