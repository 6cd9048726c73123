//! Messages exchanged between the window manager and its clients.
pub mod action_event;
pub mod client;
pub mod commands;
