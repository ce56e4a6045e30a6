pub mod bitfield;
pub mod bytes;
pub mod error;
pub mod peer;
pub mod sha;
pub mod storage;
pub mod torrent;
pub mod tracker;
