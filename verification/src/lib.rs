//! Discovery, matching and portable packaging of coding-assistant chat
//! sessions.
//!
//! A session is recorded as an append-only line-delimited record file; this
//! crate parses such files into [`session::Session`] values, orders them into
//! a catalog, picks the best session for a working directory
//! ([`matcher`]), and turns a session into a compressed, self-describing
//! container and back ([`export`], [`import`]).
//!
//! File and network traffic stay outside this crate: callers read record
//! files, write containers and run transfers, and hand plain values in and
//! out.

pub mod catalog;
pub mod cloud;
pub mod export;
pub mod import;
pub mod matcher;
pub mod message;
pub mod session;
pub mod shims;
pub mod text;
