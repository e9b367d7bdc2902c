//! The three commands, from the text of the configuration file to the text
//! that is written back or shown. Reading and writing the file is left to
//! the caller.

use vstd::prelude::*;
use vstd::string::*;
use toml_edit::DocumentMut;
use crate::document::{doc_view, parse_document, parsed_tree, write_document, written};
use crate::patcher::{apply, remove_proxy_config, NotATable};
use crate::reader::current_proxy;
use crate::registry::{
    known_names, names_view, resolution, resolve, text_view, ResolvedProxy, UnknownProxy,
};
use crate::rules::{applied, cleared, current, installable};
use crate::text::lowercase;
use crate::tree::Node;

verus! {

/// What is shown for a document that has no mirror set.
pub const NO_PROXY_SET: &'static str = "No proxy is currently set.";

/// What precedes the mirror that is shown.
pub const CURRENT_PROXY: &'static str = "Current proxy: ";

/// What is said where there is no file to clear.
pub const NOTHING_TO_CLEAR: &'static str = "No configuration file found. Nothing to clear.";

/// What is said after a file was cleared.
pub const CLEARED: &'static str = "Proxy configuration has been successfully cleared.";

/// The tree that the commands work on: that of the file's text; a table
/// without keys where there is no file, or where its text is no TOML. In
/// that last case nothing of the file is in the tree: what `set_proxy` and
/// `clear_proxy` return for it holds none of what the file held, and a
/// caller that writes it back loses that.
pub open spec fn loaded_tree(existing: Option<Seq<char>>) -> Node {
    match existing {
        Some(text) => match parsed_tree(text) {
            Some(t) => t,
            None => Node::empty_table(),
        },
        None => Node::empty_table(),
    }
}

/// Whether `text` is what `toml_edit` writes for some document of this tree.
pub open spec fn is_written_form(text: Seq<char>, tree: Node) -> bool {
    exists|d: DocumentMut| doc_view(d) == tree && #[trigger] written(d) == text
}

/// The line that shows a mirror, or that there is none.
pub open spec fn shown_line(current: Option<Seq<char>>) -> Seq<char> {
    match current {
        Some(s) => CURRENT_PROXY@ + s,
        None => NO_PROXY_SET@,
    }
}

/// The document of a file's text. A text that is no TOML gives an empty
/// document, and so does a file that is not there. Nothing is said of the
/// text that could not be read: a caller that goes on and writes the
/// document back replaces the file by one without what it held. Whoever
/// cannot afford that has to test the text before.
pub fn load_document(existing: Option<&str>) -> (doc: DocumentMut)
    ensures
        doc_view(doc) == loaded_tree(text_view(existing)),
        doc_view(doc) is Table,
{
    match existing {
        Some(text) => match parse_document(text) {
            Some(doc) => doc,
            None => DocumentMut::new(),
        },
        None => DocumentMut::new(),
    }
}

/// Why a mirror was not set.
#[derive(Debug, PartialEq, Eq)]
pub enum SetError {
    /// The request names no known mirror and is no address.
    UnknownProxy(UnknownProxy),
    /// The document holds a value where the mirror needs a table.
    NotATable,
}

/// Sets the mirror `proxy` in the configuration whose text is `existing`,
/// and returns the text to write back.
pub fn install_proxy(existing: Option<&str>, proxy: &ResolvedProxy) -> (r: Result<
    String,
    NotATable,
>)
    ensures
        match r {
            Ok(out) => installable(cleared(loaded_tree(text_view(existing))), proxy@.0)
                && is_written_form(
                out@,
                applied(loaded_tree(text_view(existing)), proxy@.0, proxy@.1),
            ),
            Err(_) => !installable(cleared(loaded_tree(text_view(existing))), proxy@.0),
        },
{
    let mut doc = load_document(existing);
    match apply(&mut doc, proxy) {
        Ok(_) => Ok(write_document(&doc)),
        Err(blocked) => Err(blocked),
    }
}

/// Sets the mirror that `proxy` asks for, a known name or an address, in
/// the configuration whose text is `existing`, and returns the text to
/// write back. A request that cannot be resolved is refused before the
/// configuration is looked at.
pub fn set_proxy(existing: Option<&str>, proxy: &str) -> (r: Result<String, SetError>)
    ensures
        match r {
            Ok(out) => resolution(lowercase(proxy@), proxy@) matches Some(p) && installable(
                cleared(loaded_tree(text_view(existing))),
                p.0,
            ) && is_written_form(out@, applied(loaded_tree(text_view(existing)), p.0, p.1)),
            Err(SetError::UnknownProxy(e)) => resolution(lowercase(proxy@), proxy@) is None
                && names_view(e.known@) == known_names(),
            Err(SetError::NotATable) => resolution(lowercase(proxy@), proxy@) matches Some(p)
                && !installable(cleared(loaded_tree(text_view(existing))), p.0),
        },
{
    match resolve(proxy) {
        Ok(resolved) => match install_proxy(existing, &resolved) {
            Ok(out) => Ok(out),
            Err(_) => Err(SetError::NotATable),
        },
        Err(unknown) => Err(SetError::UnknownProxy(unknown)),
    }
}

/// Clears the mirror from the configuration whose text is `existing`, and
/// returns the text to write back; `None` where there is no file, and
/// nothing to write.
pub fn clear_proxy(existing: Option<&str>) -> (r: Option<String>)
    ensures
        match r {
            Some(out) => existing is Some && is_written_form(
                out@,
                cleared(loaded_tree(text_view(existing))),
            ),
            None => existing is None,
        },
{
    match existing {
        Some(_) => {
            let mut doc = load_document(existing);
            remove_proxy_config(&mut doc);
            Some(write_document(&doc))
        },
        None => None,
    }
}

/// The line that tells which mirror a shown name or address is, or that
/// there is none.
pub fn show_line(current: Option<&str>) -> (r: String)
    ensures
        r@ == shown_line(text_view(current)),
{
    match current {
        Some(s) => {
            let mut out = CURRENT_PROXY.to_owned();
            out.append(s);
            out
        },
        None => NO_PROXY_SET.to_owned(),
    }
}

/// The line to show for the configuration whose text is `existing`: the
/// mirror that is set, or that none is.
pub fn show_proxy(existing: Option<&str>) -> (r: String)
    ensures
        r@ == shown_line(current(loaded_tree(text_view(existing)))),
{
    let doc = load_document(existing);
    match current_proxy(&doc) {
        Some(shown) => show_line(Some(shown.as_str())),
        None => show_line(None),
    }
}

} // verus!
