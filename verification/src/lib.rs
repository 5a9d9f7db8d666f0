//! A local command switcher: a server holds a selectable index into an
//! ordered table of named shell commands and answers a one-byte-discriminant
//! wire protocol that lets clients query, set, or advance that index.
//!
//! This crate holds the verified core: the wire codec ([`msg`]), the action
//! table ([`cfg`]), and the request dispatcher ([`dispatch`]). Socket I/O,
//! configuration parsing, and process spawning live outside, around it.

pub mod cfg;
pub mod dispatch;
pub mod msg;
