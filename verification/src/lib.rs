//! A local hub for agent sessions: clients connect to it over a socket or, once
//! enrolled, over the network, follow sessions, send prompts and answer
//! questions for permission.
//!
//! `model` says what the hub is and what each event does to it; `hub`, `server`
//! and `actor` do it. `laws`, and the modules whose names end in it, say what
//! always holds: what each operation is for, and what no operation does. What is
//! read from or written to files, sockets and processes is left to the program
//! around this library.

pub mod actor;
pub mod actor_laws;
pub mod agent_laws;
pub mod bridge;
pub mod client;
pub mod codec;
pub mod command_laws;
pub mod connection_laws;
pub mod delivery_laws;
pub mod disk_laws;
pub mod enroll_laws;
pub mod fake_agent;
pub mod frame;
pub mod history;
pub mod history_laws;
pub mod hosting_laws;
pub mod hub;
pub mod json;
pub mod laws;
pub mod listing_laws;
pub mod model;
pub mod number_laws;
pub mod numeral;
pub mod order;
pub mod path_laws;
pub mod paths;
pub mod peer_laws;
pub mod remote;
pub mod request_laws;
pub mod rpc;
pub mod server;
pub mod sessions;
pub mod table;
pub mod text;
pub mod text_laws;
pub mod tls;
pub mod turn_effort;
pub mod version;
pub mod view_laws;
