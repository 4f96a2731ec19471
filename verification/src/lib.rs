//! Decisions of a tool that backs up a mailbox over IMAP and exports the copy.

pub mod backup;
pub mod config;
pub mod engine;
pub mod error;
pub mod export;
pub mod fetch;
pub mod laws;
pub mod lines;
pub mod mail;
pub mod mbox;
pub mod message;
pub mod reply;
pub mod separator;
pub mod sqlite;
pub mod steps;
pub mod stdout;
pub mod store;
pub mod table;
pub mod text;
pub mod uids;
