//! A launcher for command snippets: it gathers the snippets that JSON sources
//! define into one catalog, writes the catalog as lines for a selector process,
//! reads the selector's reply back as an index, and decides what is done with
//! the chosen snippet.

pub mod author;
pub mod catalog;
pub mod codec;
pub mod decode;
pub mod dispatch;
pub mod json;
pub mod paths;
pub mod plugin;
pub mod settings;
pub mod snippet;
pub mod store;
pub mod text;
