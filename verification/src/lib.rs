//! Client-side logic of a note-taking assistant: a JSON-RPC tool-calling
//! session over line-framed pipes, the Notion page/database adapter built on
//! it, credential bookkeeping, and the text utilities around them. Process,
//! file and network I/O live outside this crate; the functions here decide
//! what is sent, how replies are read, and what the caller is told.

pub mod blocks;
pub mod chunk;
pub mod config;
pub mod error;
pub mod files;
pub mod ids;
pub mod json;
pub mod notion;
pub mod providers;
pub mod recent;
pub mod session;
pub mod text;
pub mod web;
pub mod tools;
pub mod wire;
