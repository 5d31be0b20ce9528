//! Capture-and-ranking core of a clipboard history.
//!
//! - [`content`]: the three cases of clipboard content, and how a raw
//!   snapshot becomes one of them.
//! - [`monitor`]: duplicate suppression for change events.
//! - [`embed`]: what the embedding models are asked, and the query state.
//! - [`entry`], [`row`], [`timestamp`]: a history entry and its stored form.
//! - [`history`]: the in-memory history.
//! - [`similarity`], [`search`]: hybrid ranking against a query.
//! - [`highlight`]: the fragments of a text that hold the query.
//! - [`text`], [`codec`]: contracts for the string and byte functions of
//!   the standard library and of outside crates that the rest is stated over.

pub mod codec;
pub mod content;
pub mod embed;
pub mod entry;
pub mod highlight;
pub mod history;
pub mod monitor;
mod order;
pub mod row;
pub mod search;
pub mod similarity;
pub mod text;
pub mod timestamp;
