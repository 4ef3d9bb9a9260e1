//! A minimal login to Xiaomi's services, without verification or caching.

pub mod account;
pub mod device;

pub use account::{login, AuthData};
