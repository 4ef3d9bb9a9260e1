//! A client for NetEase Cloud Music (网易云音乐)'s web-player API, whose requests
//! are encrypted under the weapi scheme ([`crypto`]).

pub mod api;
pub mod client;
pub mod crypto;
pub mod error;
pub mod session;
pub mod stream;

pub use api::search::{SearchQuery, Song};
pub use api::url::{Level, SongUrlErr};
pub use client::Client;
pub use crypto::WeapiRequest;
pub use error::NeteaseErr;
pub use session::Session;
