//! Receiving live frames that other processes share as GPU textures, and
//! the settings around it.
//!
//! - `record`: the byte layout of sender records in shared memory.
//! - `discovery`: finding a sender by name, shared memory first, then the
//!   registry keys.
//! - `receiver`: the state of one connection from poll to poll.
//! - `frame`: copying pixel rows out of a mapped texture, and the frame
//!   buffer each connection fills.
//! - `manager`: the table of connections, one per source name.
//! - `sender`: the registration decisions of the publish path.
//! - `config`: reading the OSC and publish settings.
pub mod config;
pub mod discovery;
pub mod frame;
pub mod manager;
pub mod receiver;
pub mod record;
pub mod sender;
