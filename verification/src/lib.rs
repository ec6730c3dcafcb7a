//! Verified core of an Instagram profile archiver: input parsing, HTTP
//! response classification, media expansion, archive bookkeeping and the
//! decisions of the archive and watch loops.

pub mod error;
pub mod text;
pub mod json;
pub mod auth;
pub mod httpx;
pub mod media;
pub mod ig;
pub mod browser;
pub mod appdata;
pub mod config;
pub mod store;
pub mod archive;
pub mod watch;
