//! The logic of `api2cli`, a server that accepts any HTTP request and forwards it to a
//! command-line program or a shell pipe.
//!
//! - [`passthrough`], [`headers`] and [`payload`]: what is written downstream for a request, with
//!   JSON by way of [`json`];
//! - [`forwarder`] and [`server`]: how a request is forwarded and answered, step by step, and when
//!   the server ends;
//! - [`config`] and [`settings`]: which options are in force;
//! - [`location`] and [`logging`]: where files are kept, and what is logged;
//! - [`binding`]: binding the port, and what to do when another process holds it;
//! - [`text`] and [`number`]: the text primitives of the above.
//!
//! Nothing here reads, writes, waits or spawns. Where the server has to do so, a function takes
//! what came of it and says what is to be done next.

pub mod binding;
pub mod config;
pub mod forwarder;
pub mod headers;
pub mod json;
pub mod location;
pub mod logging;
pub mod number;
pub mod passthrough;
pub mod payload;
pub mod server;
pub mod settings;
pub mod text;
