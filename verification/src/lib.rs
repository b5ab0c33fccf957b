//! Request handling of a sandbox data plane: the rules of its process, filesystem, file-transfer
//! and watch endpoints, stated over plain values and proved.
//!
//! Nothing here touches the network, the filesystem or the process table. Where an endpoint needs
//! the host, it is a state machine: it says which question it has for the host, takes the answer,
//! and goes on (see [`host`]).

pub mod access;
pub mod auth;
pub mod connect;
pub mod credentials;
pub mod defaults;
pub mod entry;
pub mod files;
pub mod filesystem;
pub mod fsutil;
pub mod host;
pub mod init;
pub mod laws;
pub mod listing;
pub mod outside;
pub mod path;
pub mod process;
pub mod reply;
pub mod running;
pub mod termination;
pub mod text;
pub mod upload;
pub mod watch;
pub mod watcher;
