//! The endpoints, one module per API: what is sent, and what a reply comes to.

pub mod login;
pub mod search;
pub mod url;
