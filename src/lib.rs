//! Fetches a software license from a remote catalog, fills in the copyright
//! year and holder, and checks an existing license file against it.
//!
//! The modules follow the flow of one run: `catalog` holds the descriptors
//! and resolves a key, `render` fills a template, `check` compares a file with
//! the reference text, `pipeline` decides between the steps, and `text` holds
//! the character-level operations they share.

pub mod catalog;
pub mod check;
pub mod pipeline;
pub mod render;
pub mod text;
