//! Where music comes from: the music directory, and NetEase.

pub mod local;
pub mod netease;

pub use local::LocalSource;
pub use netease::NeteaseSource;
