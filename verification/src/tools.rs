//! Sized types that are of use in pool objects: a byte string of a fixed
//! size and pools of a fixed capacity.

pub mod byte_str;
pub mod pool;
pub mod sized_pool;
