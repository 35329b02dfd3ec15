//! What an editor needs around clangd, the language server for C and C++, and the
//! settings of its assistant, with proofs.
//!
//! - `clangd`: the adapter, which puts the following together.
//! - `provision`, `fetch`: which release of the server to take, where its binary goes on
//!   disk, and in which order to fetch it.
//! - `label`, `completion`, `symbol`: labels for completions and symbols, and what to ask
//!   the highlighter for them.
//! - `capabilities`, `json`: the experimental capabilities that the adapter announces.
//! - `assistant_settings`: the settings files of the assistant and the settings in force.
//! - `text`: UTF-8 text by its bytes.
//!
//! Nothing here reads a file or opens a connection: the caller does, and hands over what
//! it found.

pub mod assistant_settings;
pub mod capabilities;
pub mod clangd;
pub mod completion;
pub mod fetch;
pub mod json;
pub mod label;
pub mod provision;
pub mod symbol;
pub mod text;
