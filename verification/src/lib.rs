//! Routing core of a configurable HTTP gateway.
//!
//! Requests are matched against path patterns ordered by specificity and
//! handed to the handler of the first route that accepts them: a file, a
//! directory, an upstream server, a JSON document that can be patched, or a
//! canned response. Everything here works on plain values and decides; the
//! caller owns sockets, files and locks, and does what a handler asks for.
//!
//! Compiling patterns and matching paths is left to `regex`, reading and
//! patching documents to `serde_json` and `json_patch`, and a few questions
//! on texts to `http`, `mime`, `mime_guess` and `urlencoding`. What is taken
//! on trust of them is said where they are called.

pub mod config;
pub mod document;
pub mod error;
pub mod handler;
pub mod matcher;
pub mod method;
pub mod path;
pub mod pattern;
pub mod precedence;
pub mod request;
pub mod response;
pub mod route;
pub mod uri;
