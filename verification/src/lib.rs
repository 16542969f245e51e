//! The decision core of a NomadNet client: page parsing, form state, file
//! offers, message delivery, chat rooms, the HTTP surface and the terminal
//! screens, as plain functions on plain values.
pub mod text;
pub mod hexadecimal;
pub mod browser;
pub mod table;
pub mod msgpack;
pub mod mime;
pub mod models;
pub mod attachments;
pub mod service;
pub mod digest;
pub mod api;
pub mod config;
pub mod lxmf;
pub mod db;
pub mod queries;
pub mod announce;
pub mod fetch;
pub mod network;
pub mod retention;
pub mod rrc;
pub mod ui;
pub mod laws;
