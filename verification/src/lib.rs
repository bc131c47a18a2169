//! A relay server for end-to-end encrypted chat: several devices per user,
//! private messages, groups, channels and push notifications.
//!
//! The crate holds everything the server decides. Sockets, the SQLite file and
//! the push service stay outside: the caller performs the requests that the
//! library hands out and reports back what came of them.

pub mod archive;
pub mod auth;
pub mod client;
pub mod command;
pub mod crypto;
pub mod db;
pub mod identity;
pub mod laws;
pub mod notice;
pub mod posting;
pub mod progress;
pub mod rows;
pub mod runs;
pub mod session;
pub mod signin;
pub mod sql;
pub mod state;
pub mod statements;
pub mod store;
pub mod table;
pub mod tables;
pub mod text;
pub mod turn;
pub mod wire;
