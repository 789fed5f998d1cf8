//! A verified core for a live-media relay.
//!
//! The relay accepts one publisher byte stream in an FLV-like tagged
//! container format, splits it into self-contained tags at exact byte
//! boundaries, filters audio tags out, caches the stream header and the
//! most recent video configuration record for late joiners, and fans the
//! result out to any number of subscribers, each with its own bounded
//! cursor.

pub mod broadcast;
pub mod capture;
pub mod config;
pub mod error;
pub mod frame;
pub mod hub;
pub mod live;
pub mod protocol;
pub mod reader;
pub mod relay;
pub mod rtsp;
pub mod session;
pub mod stream;
pub mod tag;
pub mod util;
