//! A personal feed reader's core: posts gathered from remote feeds and from
//! local Atom files, the refresh protocol that keeps them current, the
//! appending of new local posts, and the decoding of requests into tasks.

pub mod appender;
pub mod errors;
pub mod feeds;
pub mod paths;
pub mod render;
pub mod state;
pub mod syndicated;
pub mod task;
pub mod timestamp;
