//! Sets, clears and reports a registry mirror ("proxy") in a Cargo
//! configuration document.
//!
//! The document is a `toml_edit::DocumentMut`; the contracts speak of it
//! through its tree (`tree::Node`): what each key holds, the order of the
//! keys, and what stands for the way each is written. `rules` says what
//! clearing, installing and reading mean on that tree, `patcher` and
//! `reader` do it to a document, `commands` goes from the text of the
//! configuration file to the text to write back or to show, and `laws`
//! holds what is proved of the rules.
//!
//! What is taken on trust stands in `document`, for `toml_edit`, and in
//! `text::to_lowercase`, for the lowercase form of a text.

pub mod text;
pub mod keys;
pub mod tree;
pub mod registry;
pub mod rules;
pub mod document;
pub mod patcher;
pub mod reader;
pub mod commands;
pub mod laws;

pub use crate::commands::{clear_proxy, install_proxy, load_document, set_proxy, show_proxy, SetError};
pub use crate::patcher::{
    add_proxy_config, apply, can_install, ensure_table, remove_proxy_config, NotATable,
};
pub use crate::reader::current_proxy;
pub use crate::registry::{predefined_proxies, resolve, ResolvedProxy, UnknownProxy};
