//! Reads which mirror a document has set.

use vstd::prelude::*;
use toml_edit::{DocumentMut, Item};
use crate::document::{doc_view, item_get, item_view};
use crate::keys::{CRATES_IO, REGISTRY, REPLACE_WITH, RSPROXY, RSPROXY_SPARSE, SOURCE};
use crate::registry::{find_proxy, text_view};
use crate::rules::current;
use crate::text::same_text;

verus! {

/// The string under `a.b.c` in `root`, where all of `root`, `a` and `b` are
/// tables, in either way of writing one, and `c` holds a string.
fn text_at<'a>(root: &'a Item, a: &str, b: &str, c: &str) -> (r: Option<&'a str>)
    ensures
        text_view(r) == item_view(*root).child(a@).child(b@).child(c@).text(),
{
    let outer = match item_get(root, a) {
        Some(item) => item,
        None => {
            return None;
        },
    };
    let inner = match item_get(outer, b) {
        Some(item) => item,
        None => {
            return None;
        },
    };
    match item_get(inner, c) {
        Some(item) => item.as_str(),
        None => None,
    }
}

/// The mirror that the document has set, as it is shown: by its name where
/// it is a known one, else by the address stored for it.
pub fn current_proxy(doc: &DocumentMut) -> (r: Option<String>)
    ensures
        match r {
            Some(s) => current(doc_view(*doc)) == Some(s@),
            None => current(doc_view(*doc)) is None,
        },
{
    let root = doc.as_item();
    let alias = match text_at(root, SOURCE, CRATES_IO, REPLACE_WITH) {
        Some(s) => s,
        None => {
            return None;
        },
    };
    let sparse = same_text(alias, RSPROXY_SPARSE);
    let source = if sparse {
        RSPROXY
    } else {
        alias
    };
    let url = match text_at(root, SOURCE, source, REGISTRY) {
        Some(s) => s,
        None => {
            return None;
        },
    };
    let found = if sparse {
        find_proxy(None, Some(url))
    } else {
        find_proxy(Some(alias), Some(url))
    };
    match found {
        Some((name, _)) => Some(name.to_owned()),
        None => Some(url.to_owned()),
    }
}

} // verus!
