//! What the operations are for: laws that hold of every input, each stated by
//! what goes in and what comes out.
pub mod words;
pub mod chat;
pub mod mail;
pub mod inline;
pub mod fields;
pub mod forms;
pub mod pages;
pub mod addresses;
pub mod access;
pub mod files;
pub mod endings;
pub mod records;
pub mod hubs;
pub mod browsing;
pub mod screens;
pub mod bridging;
pub mod lines;
pub mod talks;
pub mod desk;
pub mod sessions;
pub mod application;
