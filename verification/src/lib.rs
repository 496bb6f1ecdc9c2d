//! A client for a chat that speaks an IRC-like protocol over a websocket.
//!
//! This crate holds the rules of the client, each with its contract: how a
//! line from the server is read (`parse`), what one connection's session
//! answers to a frame and to a line from the host (`session`), and which
//! session the supervisor keeps installed (`chat_controller`, `chat`). It
//! opens no socket and starts no task: its caller does what it decides.

pub mod chat;
pub mod chat_controller;
pub mod config;
pub mod parse;
pub mod session;
pub mod text;
