//! swivel: the verified core of a peer-to-peer voice intercom.
pub mod audio;
pub mod cli;
pub mod config;
pub mod keys;
pub mod net;
pub mod session;
pub mod state;
pub mod store;
pub mod text;
pub mod ui;
