//! The logic of a desktop IRC client: turning protocol events into chat
//! lines, deciding what slash commands do, and keeping the per-server and
//! per-channel state that the user interface shows.
pub mod chat;
pub mod config;
pub mod display;
pub mod guarantees;
pub mod order;
pub mod pipe;
pub mod table;
pub mod irc_client;
pub mod laws;
pub mod text;
