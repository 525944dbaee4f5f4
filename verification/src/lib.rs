//! The protocol core of an XDCC downloader: line framing, message
//! classification, DCC offers, the transfer bookkeeping and the session
//! state machine, each with a machine-checked contract.

pub mod catalog;
pub mod command;
pub mod decimal;
pub mod event;
pub mod framer;
pub mod ipv4;
pub mod machine;
pub mod message;
pub mod pattern;
pub mod player;
pub mod progress;
pub mod query;
pub mod request;
pub mod session;
pub mod text;
pub mod transfer;
