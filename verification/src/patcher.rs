//! Clears and installs a mirror in a document.

use vstd::prelude::*;
use vstd::pervasive::unreached;
use toml_edit::{DocumentMut, Item};
use crate::document::{
    among, doc_view, flag_item, held_keys, inline_keys, inline_remove, inline_table_item,
    item_get, item_slot, item_view, text_item,
};
use crate::keys::{
    CRATES_IO, GIT_FETCH_WITH_CLI, INDEX, NET, REGISTRIES, REGISTRY, REPLACE_WITH, RSPROXY,
    RSPROXY_INDEX, RSPROXY_SPARSE, RSPROXY_SPARSE_INDEX, SOURCE, SPARSE_PREFIX,
    lemma_root_keys_differ,
};
use crate::registry::{text_view, ResolvedProxy};
use crate::rules::{
    applied, cleared, cleared_source, emptied, held_but, installable, installed, without_held,
    without_key,
};
use crate::text::{join3, same_text, trim_trailing_slashes};
use crate::tree::{Node, held, lemma_shape_without_none, lemma_shape_without_twice};

verus! {

/// A key is among the first `n + 1` of `keys` where it is among the first
/// `n`, or is the next one.
proof fn lemma_among_next(keys: Seq<String>, n: int, k: Seq<char>)
    requires
        0 <= n < keys.len(),
    ensures
        among(keys, n + 1, k) <==> among(keys, n, k) || keys[n]@ == k,
{
    if among(keys, n + 1, k) {
        let j = choose|j: int| 0 <= j < n + 1 && #[trigger] keys[j]@ == k;
        if j < n {
            assert(among(keys, n, k));
        }
    }
    if among(keys, n, k) {
        let j = choose|j: int| 0 <= j < n && #[trigger] keys[j]@ == k;
        assert(0 <= j < n + 1 && keys[j]@ == k);
    }
    if keys[n]@ == k {
        assert(among(keys, n + 1, k));
    }
}

/// The item under `key` in the table that `item` is, in either way of
/// writing a table, where `key` holds something. What is done to it is done
/// to `item`, and no other key changes; where nothing is done, `item` is
/// left as it is.
fn held_child<'a>(item: &'a mut Item, key: &str) -> (r: Option<&'a mut Item>)
    ensures
        match r {
            Some(child) => {
                &&& held(item_view(*old(item)).entries(), key@)
                &&& item_view(*child) == item_view(*old(item)).child(key@)
                &&& item_view(*final(item)) == item_view(*old(item)).with(
                    key@,
                    item_view(*final(child)),
                )
                &&& *final(child) == *child ==> *final(item) == *old(item)
            },
            None => !held(item_view(*old(item)).entries(), key@) && *final(item) == *old(item),
        },
{
    if item_get(item, key).is_some() {
        item_slot(item, key)
    } else {
        None
    }
}

/// Takes `key` out of the table that `item` is; an item that is no table,
/// or does not store `key`, is left as it is.
fn remove_key(item: &mut Item, key: &str)
    ensures
        item_view(*final(item)) == without_key(item_view(*old(item)), key@),
        !item_view(*old(item)).entries().contains_key(key@) ==> *final(item) == *old(item),
{
    match item.as_table_mut() {
        Some(table) => {
            table.remove(key);
        },
        None => match item.as_inline_table_mut() {
            Some(inline) => inline_remove(inline, key),
            None => {},
        },
    }
}

/// The keys of the table that `item` is: every key that holds something,
/// and none that is not stored.
fn listed_keys(item: &Item) -> (keys: Vec<String>)
    ensures
        forall|k: Seq<char>|
            held(item_view(*item).entries(), k) ==> among(keys@, keys@.len() as int, k),
        forall|k: Seq<char>| #[trigger]
            among(keys@, keys@.len() as int, k) ==> item_view(*item).entries().contains_key(k),
{
    let keys = match item.as_table() {
        Some(table) => held_keys(table),
        None => match item.as_inline_table() {
            Some(inline) => inline_keys(inline),
            None => Vec::new(),
        },
    };
    proof {
        let stored = item_view(*item).entries();
        assert forall|k: Seq<char>| held(stored, k) implies among(
            keys@,
            keys@.len() as int,
            k,
        ) by {}
        assert forall|k: Seq<char>| #[trigger]
            among(keys@, keys@.len() as int, k) implies stored.contains_key(k) by {
            assert(held(stored, k) ==> stored.contains_key(k));
        }
    }
    keys
}

/// The keys among the first `n` of `keys` that are to go: those that hold
/// something in `m`, but for `keep`.
spec fn gone_so_far(
    keys: Seq<String>,
    n: int,
    m: Map<Seq<char>, Node>,
    keep: Option<Seq<char>>,
) -> Set<Seq<char>> {
    Set::new(|k: Seq<char>| among(keys, n, k) && held(m, k) && keep != Some(k))
}

/// Removes every key that holds something, but for `keep`, from the table
/// that `item` is. The keys that stay keep their place and the way they are
/// written, and an item that has no key to go is left as it is.
fn remove_held(item: &mut Item, keep: Option<&str>)
    ensures
        item_view(*final(item)) == emptied(item_view(*old(item)), text_view(keep)),
        held_but(item_view(*old(item)).entries(), text_view(keep)) =~= Set::empty()
            ==> *final(item) == *old(item),
{
    let ghost start = item_view(*item);
    let ghost before = start.entries();
    let ghost kept = text_view(keep);
    let keys = listed_keys(item);
    let mut i: usize = 0;
    proof {
        let gone = gone_so_far(keys@, 0, before, kept);
        lemma_shape_without_none(start.shape(), gone);
        assert(before.remove_keys(gone) =~= before);
    }
    while i < keys.len()
        invariant
            i <= keys.len(),
            before == start.entries(),
            kept == text_view(keep),
            forall|k: Seq<char>| held(before, k) ==> among(keys@, keys@.len() as int, k),
            item_view(*item) == start.rebuilt(
                before.remove_keys(gone_so_far(keys@, i as int, before, kept)),
                start.shape().without(gone_so_far(keys@, i as int, before, kept)),
            ),
            held_but(before, kept) =~= Set::empty() ==> *item == *old(item),
        decreases keys.len() - i,
    {
        let key = keys[i].as_str();
        let stays = match keep {
            Some(k) => same_text(key, k),
            None => false,
        };
        let ghost gone = gone_so_far(keys@, i as int, before, kept);
        let ghost next = gone_so_far(keys@, i + 1, before, kept);
        proof {
            assert forall|k: Seq<char>|
                among(keys@, i + 1, k) <==> among(keys@, i as int, k) || key@ == k by {
                lemma_among_next(keys@, i as int, k);
            }
        }
        if !stays && item_get(item, key).is_some() {
            proof {
                assert(held(before, key@));
                assert(held_but(before, kept).contains(key@));
                assert(next =~= gone.union(set![key@]));
                lemma_shape_without_twice(start.shape(), gone, set![key@]);
                assert(before.remove_keys(gone).remove(key@) =~= before.remove_keys(next));
            }
            remove_key(item, key);
        } else {
            assert(next =~= gone);
        }
        i = i + 1;
    }
    proof {
        assert(gone_so_far(keys@, i as int, before, kept) =~= held_but(before, kept));
        assert(before.remove_keys(held_but(before, kept)) =~= without_held(before, kept));
    }
}

/// Taking a key out of a node leaves the node as it is only where the key
/// is not stored.
proof fn lemma_key_is_out(n: Node, key: Seq<char>)
    requires
        without_key(n, key) == n,
    ensures
        !n.entries().contains_key(key),
{
    if n.is_table_like() {
        assert(without_key(n, key).entries() == n.entries().remove(key));
        assert(!n.entries().remove(key).contains_key(key));
    }
}

/// Emptying leaves a node as it is only where no key is to go.
proof fn lemma_is_empty(n: Node, keep: Option<Seq<char>>)
    requires
        emptied(n, keep) == n,
    ensures
        held_but(n.entries(), keep) =~= Set::empty(),
{
    if n.is_table_like() {
        let stored = n.entries();
        assert(emptied(n, keep).entries() == without_held(stored, keep));
        assert forall|k: Seq<char>| !held_but(stored, keep).contains(k) by {
            if held(stored, k) && keep != Some(k) {
                assert(!without_held(stored, keep).contains_key(k));
            }
        }
    }
}

/// Where clearing leaves `source` as it is, none of its keys but
/// `crates-io` holds something, and `crates-io` stores no `replace-with`.
proof fn lemma_source_is_clear(n: Node)
    requires
        cleared_source(n) == n,
    ensures
        held_but(n.entries(), Some(CRATES_IO@)) =~= Set::empty(),
        !n.child(CRATES_IO@).entries().contains_key(REPLACE_WITH@),
{
    let stored = n.entries();
    let kept = emptied(n, Some(CRATES_IO@));
    if n.is_table_like() {
        assert(kept.entries() == without_held(stored, Some(CRATES_IO@)));
        if kept.entries().contains_key(CRATES_IO@) {
            let last = kept.entries().insert(
                CRATES_IO@,
                without_key(kept.entries()[CRATES_IO@], REPLACE_WITH@),
            );
            assert(cleared_source(n).entries() == last);
            assert forall|k: Seq<char>| !held_but(stored, Some(CRATES_IO@)).contains(k) by {
                if held(stored, k) && k != CRATES_IO@ {
                    assert(!last.contains_key(k));
                }
            }
            assert(last[CRATES_IO@] == stored[CRATES_IO@]);
            lemma_key_is_out(stored[CRATES_IO@], REPLACE_WITH@);
        } else {
            assert(cleared_source(n).entries() == kept.entries());
            assert forall|k: Seq<char>| !held_but(stored, Some(CRATES_IO@)).contains(k) by {
                if held(stored, k) && k != CRATES_IO@ {
                    assert(!kept.entries().contains_key(k));
                }
            }
        }
    }
}

/// Clears the table `source`: every key but `crates-io` goes, and
/// `crates-io`, where it is a table, loses its `replace-with`. A table that
/// has none of these is left as it is.
fn clear_source(source: &mut Item)
    ensures
        item_view(*final(source)) == cleared_source(item_view(*old(source))),
        cleared_source(item_view(*old(source))) == item_view(*old(source)) ==> *final(source)
            == *old(source),
{
    let ghost start = item_view(*source);
    proof {
        if cleared_source(start) == start {
            lemma_source_is_clear(start);
        }
    }
    remove_held(source, Some(CRATES_IO));
    let ghost kept = item_view(*source);
    match held_child(source, CRATES_IO) {
        Some(crates_io) => remove_key(crates_io, REPLACE_WITH),
        None => {
            assert(kept.entries().contains_key(CRATES_IO@) ==> kept.entries().insert(
                CRATES_IO@,
                without_key(kept.entries()[CRATES_IO@], REPLACE_WITH@),
            ) =~= kept.entries());
        },
    }
    assert(item_view(*source).entries() =~= cleared_source(start).entries());
}

/// Whether `after` is `before`, cleared: its tree is the cleared tree, and
/// where clearing finds nothing to remove it is the same document, with its
/// comments and its layout.
pub open spec fn is_cleared(before: DocumentMut, after: DocumentMut) -> bool {
    &&& doc_view(after) == cleared(doc_view(before))
    &&& cleared(doc_view(before)) == doc_view(before) ==> after == before
}

/// Removes what a mirror is made of: under `source` every key but
/// `crates-io`, and the `replace-with` of `crates-io`; every key under
/// `registries`; and `net.git-fetch-with-cli`. A table counts in either way
/// of writing one. No other key changes, and a document that has nothing of
/// a mirror is left as it is, with its comments and its layout.
pub fn remove_proxy_config(doc: &mut DocumentMut)
    ensures
        is_cleared(*old(doc), *final(doc)),
{
    let ghost before = doc_view(*doc);
    proof {
        lemma_root_keys_differ();
        if cleared(before) == before && before.is_table_like() {
            let stored = before.entries();
            assert(cleared(before).entries() == stored);
            if stored.contains_key(SOURCE@) {
                assert(cleared(before).entries()[SOURCE@] == stored[SOURCE@]);
            }
            if stored.contains_key(REGISTRIES@) {
                assert(cleared(before).entries()[REGISTRIES@] == stored[REGISTRIES@]);
                lemma_is_empty(stored[REGISTRIES@], None);
            }
            if stored.contains_key(NET@) {
                assert(cleared(before).entries()[NET@] == stored[NET@]);
                lemma_key_is_out(stored[NET@], GIT_FETCH_WITH_CLI@);
            }
        }
    }
    let root = doc.as_item_mut();
    match held_child(root, SOURCE) {
        Some(source) => clear_source(source),
        None => {},
    }
    match held_child(root, REGISTRIES) {
        Some(registries) => remove_held(registries, None),
        None => {},
    }
    match held_child(root, NET) {
        Some(net) => remove_key(net, GIT_FETCH_WITH_CLI),
        None => {},
    }
    proof {
        lemma_root_keys_differ();
        assert(item_view(*root).entries() =~= cleared(before).entries());
    }
}

/// The table under `key` in the table that `item` is, made empty where
/// `key` holds nothing: a table under a header of its own in such a table,
/// an inline table in an inline table. A table that is there is used as it
/// is, in either way of writing one. A value under `key` is never replaced:
/// the caller sees to it that there is none.
pub fn ensure_table<'a>(item: &'a mut Item, key: &str) -> (r: &'a mut Item)
    requires
        item_view(*old(item)).is_table_like(),
        item_view(*old(item)).child(key@).is_free(),
    ensures
        item_view(*r) == item_view(*old(item)).sub(key@),
        item_view(*final(item)) == item_view(*old(item)).with(key@, item_view(*final(r))),
{
    let inline = item.is_inline_table();
    let slot = match item_slot(item, key) {
        Some(slot) => slot,
        None => unreached(),
    };
    if slot.is_none() {
        if inline {
            *slot = inline_table_item();
        } else {
            *slot = toml_edit::table();
        }
    }
    slot
}

/// Stores `leaf` under `key` in the table that `table` is.
fn set_leaf(table: &mut Item, key: &str, leaf: Item)
    requires
        item_view(*old(table)).is_table_like(),
    ensures
        item_view(*final(table)) == item_view(*old(table)).with(key@, item_view(leaf)),
{
    match item_slot(table, key) {
        Some(slot) => {
            *slot = leaf;
        },
        None => {},
    }
}

/// Installs the mirror `proxy_name` at `proxy_url`: it replaces crates.io,
/// and a source of its name holds the address of its sparse index. For
/// `rsproxy` the replacing source is `rsproxy-sparse`, beside a source and a
/// registry `rsproxy`, and `net.git-fetch-with-cli` is set.
pub fn add_proxy_config(doc: &mut DocumentMut, proxy_name: &str, proxy_url: &str)
    requires
        installable(doc_view(*old(doc)), proxy_name@),
    ensures
        doc_view(*final(doc)) == installed(doc_view(*old(doc)), proxy_name@, proxy_url@),
{
    let ghost before = doc_view(*doc);
    let source = ensure_table(doc.as_item_mut(), SOURCE);
    let crates_io = ensure_table(source, CRATES_IO);
    if same_text(proxy_name, RSPROXY) {
        set_leaf(crates_io, REPLACE_WITH, text_item(RSPROXY_SPARSE));
        let rsproxy = ensure_table(source, RSPROXY);
        set_leaf(rsproxy, REGISTRY, text_item(RSPROXY_INDEX));
        let rsproxy_sparse = ensure_table(source, RSPROXY_SPARSE);
        set_leaf(rsproxy_sparse, REGISTRY, text_item(RSPROXY_SPARSE_INDEX));
        proof {
            lemma_root_keys_differ();
            let one = before.with3(SOURCE@, CRATES_IO@, REPLACE_WITH@, Node::plain_text(RSPROXY_SPARSE@));
            let two = one.with3(SOURCE@, RSPROXY@, REGISTRY@, Node::plain_text(RSPROXY_INDEX@));
            let three = two.with3(
                SOURCE@,
                RSPROXY_SPARSE@,
                REGISTRY@,
                Node::plain_text(RSPROXY_SPARSE_INDEX@),
            );
            assert(one.entries() =~= before.entries().insert(SOURCE@, one.child(SOURCE@)));
            assert(two.entries() =~= before.entries().insert(SOURCE@, two.child(SOURCE@)));
            assert(three.entries() =~= before.entries().insert(SOURCE@, three.child(SOURCE@)));
            assert(doc_view(*doc) == three);
        }
        let registries = ensure_table(doc.as_item_mut(), REGISTRIES);
        let registry = ensure_table(registries, RSPROXY);
        set_leaf(registry, INDEX, text_item(RSPROXY_INDEX));
        let net = ensure_table(doc.as_item_mut(), NET);
        set_leaf(net, GIT_FETCH_WITH_CLI, flag_item(true));
    } else {
        set_leaf(crates_io, REPLACE_WITH, text_item(proxy_name));
        let trimmed = trim_trailing_slashes(proxy_url);
        let sparse_url = join3(SPARSE_PREFIX, trimmed, "/");
        let proxy_source = ensure_table(source, proxy_name);
        set_leaf(proxy_source, REGISTRY, text_item(sparse_url.as_str()));
        proof {
            let one = before.with3(SOURCE@, CRATES_IO@, REPLACE_WITH@, Node::plain_text(proxy_name@));
            let two = one.with3(SOURCE@, proxy_name@, REGISTRY@, Node::plain_text(sparse_url@));
            assert(one.entries() =~= before.entries().insert(SOURCE@, one.child(SOURCE@)));
            assert(two.entries() =~= before.entries().insert(SOURCE@, two.child(SOURCE@)));
        }
    }
}

/// Whether a table can stand under `key` in `table` without replacing a
/// value.
fn slot_is_free(table: &Item, key: &str) -> (r: bool)
    ensures
        r == item_view(*table).child(key@).is_free(),
{
    match item_get(table, key) {
        Some(item) => item.is_table_like(),
        None => true,
    }
}

/// Whether a table can stand under `a.b` in `table` without replacing a
/// value.
fn slot2_is_free(table: &Item, a: &str, b: &str) -> (r: bool)
    ensures
        r == item_view(*table).child(a@).child(b@).is_free(),
{
    match item_get(table, a) {
        Some(item) => slot_is_free(item, b),
        None => true,
    }
}

/// Whether the mirror `proxy_name` can be installed in the document as it
/// stands.
pub fn can_install(doc: &DocumentMut, proxy_name: &str) -> (r: bool)
    ensures
        r == installable(doc_view(*doc), proxy_name@),
{
    let root = doc.as_item();
    let plain = root.is_table_like() && slot_is_free(root, SOURCE) && slot2_is_free(
        root,
        SOURCE,
        CRATES_IO,
    ) && slot2_is_free(root, SOURCE, proxy_name);
    if same_text(proxy_name, RSPROXY) {
        plain && slot2_is_free(root, SOURCE, RSPROXY_SPARSE) && slot_is_free(root, REGISTRIES)
            && slot2_is_free(root, REGISTRIES, RSPROXY) && slot_is_free(root, NET)
    } else {
        plain
    }
}

/// A key where a table has to stand holds a value, or the root of the
/// document is no table. The mirror was not installed.
#[derive(Clone, Copy, Debug, PartialEq, Eq)]
pub struct NotATable;

/// Sets a mirror: clears the document, then installs the mirror. Where it
/// cannot be installed the document is cleared and nothing more.
pub fn apply(doc: &mut DocumentMut, proxy: &ResolvedProxy) -> (r: Result<(), NotATable>)
    ensures
        match r {
            Ok(_) => installable(cleared(doc_view(*old(doc))), proxy@.0) && doc_view(*final(doc))
                == applied(doc_view(*old(doc)), proxy@.0, proxy@.1),
            Err(_) => !installable(cleared(doc_view(*old(doc))), proxy@.0) && is_cleared(
                *old(doc),
                *final(doc),
            ),
        },
{
    remove_proxy_config(doc);
    if can_install(doc, proxy.name.as_str()) {
        add_proxy_config(doc, proxy.name.as_str(), proxy.url.as_str());
        Ok(())
    } else {
        Err(NotATable)
    }
}

} // verus!
