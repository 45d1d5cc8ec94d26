//! A gateway between tool-consuming clients and several tool-providing
//! downstream servers that speak JSON-RPC.
//!
//! The library holds the gateway's rules and state, and leaves the moving of
//! bytes to its user:
//!
//! - [`json`] and [`json_text`]: JSON documents and their text;
//! - [`json_rpc`]: the messages and the rule that tells their shapes apart;
//! - [`client`] and [`pending`]: one connection and its calls in flight;
//! - [`manager`]: the registry of connections;
//! - [`router`] and [`vector`]: resolving a prompt to a tool and its owner;
//! - [`handler`]: the merged catalog and the dispatch of calls;
//! - [`upstream`]: what a client asks for and is answered;
//! - [`config`], [`tool`] and [`text`]: what the others share.

pub mod client;
pub mod config;
pub mod handler;
pub mod json;
pub mod json_rpc;
pub mod json_text;
pub mod manager;
pub mod pending;
pub mod router;
pub mod text;
pub mod tool;
pub mod upstream;
pub mod vector;
