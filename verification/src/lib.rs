//! The decision core of a game-server tunnel: the wire protocol, the
//! authentication rules, the session tables of the relay server and of the
//! client, the bookkeeping of the manager, and the rules of the web panel.
//!
//! Sockets, clocks, databases and HTTP live outside. They hand plain values in
//! and carry out what comes back.

pub mod assign;
pub mod auth;
pub mod choice_laws;
pub mod client;
pub mod client_laws;
pub mod client_tasks;
pub mod config;
pub mod database;
pub mod dns;
pub mod end_to_end_laws;
pub mod frame_laws;
pub mod layout_laws;
pub mod manager;
pub mod manager_api;
pub mod manager_laws;
pub mod maps;
pub mod panel_laws;
pub mod picture_laws;
pub mod protocol;
pub mod protocol_laws;
pub mod registry;
pub mod server;
pub mod server_laws;
pub mod stats;
pub mod stats_laws;
pub mod stream_laws;
pub mod sync_laws;
pub mod text;
pub mod text_laws;
pub mod text_map;
pub mod udp_laws;
pub mod udp_sessions;
pub mod web;
pub mod wire;
