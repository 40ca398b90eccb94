//! A bridge between a web API for comments and a network of rooms.
//!
//! Every thread of comments lives in a room of its own, and the rooms are
//! the record: what is posted goes to the room first and comes back from it
//! as an event, which is then taken into a local cache for reading. This
//! crate holds the rules of that cycle, each with a contract that is
//! proved:
//!
//! - `models`, `identity`: tenants, comments, and the fingerprints and ghost
//!   identities of guests;
//! - `pow`: the proof of work that admits a comment;
//! - `protocol`: how a comment travels in a message, and how rooms are named;
//! - `storage`: the cache;
//! - `reconciler`: what an event does to the cache;
//! - `router`, `executor`: what a command asks of the network, step by step;
//! - `race`: two callers in a race for one room;
//! - `driver`: the two ways in which events arrive;
//! - `http`, `config`: what the web side decides, and the settings;
//! - `remote`: the operations of the network, as the bridge names them;
//! - `text`, `encoding`: characters, numerals and bytes;
//! - `foreign`: the calls into other crates, whose contracts are taken on trust.
//!
//! Nothing here waits for the network or the disk. Where the bridge needs
//! either, it says what is to be done and takes the outcome as a value.

pub mod commands;
pub mod config;
pub mod driver;
pub mod encoding;
pub mod events;
pub mod executor;
pub mod foreign;
pub mod http;
pub mod identity;
pub mod models;
pub mod pow;
pub mod protocol;
pub mod race;
pub mod reconciler;
pub mod remote;
pub mod router;
pub mod storage;
pub mod text;
