//! The terminal screens, without the terminal: what they show, how updates are
//! merged and what the keys and commands do.
pub mod state;
pub mod lines;
pub mod glyphs;
pub mod network;
pub mod updates;
pub mod directory;
pub mod lists;
pub mod windows;
pub mod layout;
pub mod conversations;
pub mod conversation;
pub mod files;
pub mod bridge;
pub mod browser;
pub mod forms;
pub mod partials;
pub mod pages;
pub mod page_events;
pub mod page_text;
pub mod rrc;
pub mod rrc_session;
pub mod rooms;
pub mod app;
