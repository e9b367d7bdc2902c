//! What clearing, installing and reading a mirror mean, on the tree of a
//! document.

use vstd::prelude::*;
use crate::keys::{
    CRATES_IO, GIT_FETCH_WITH_CLI, INDEX, NET, REGISTRIES, REGISTRY, REPLACE_WITH, RSPROXY,
    RSPROXY_INDEX, RSPROXY_SPARSE, RSPROXY_SPARSE_INDEX, SOURCE, SPARSE_PREFIX,
};
use crate::registry::first_wanted;
use crate::text::without_trailing_slashes;
use crate::tree::{Node, held};

verus! {

/// A table without the keys that hold something, but for `keep`.
pub open spec fn without_held(m: Map<Seq<char>, Node>, keep: Option<Seq<char>>) -> Map<
    Seq<char>,
    Node,
> {
    Map::new(
        |k: Seq<char>| m.contains_key(k) && (!held(m, k) || keep == Some(k)),
        |k: Seq<char>| m[k],
    )
}

/// The keys that hold something, but for `keep`.
pub open spec fn held_but(m: Map<Seq<char>, Node>, keep: Option<Seq<char>>) -> Set<Seq<char>> {
    Set::new(|k: Seq<char>| held(m, k) && keep != Some(k))
}

/// A node without `key`, where it is a table; else the node as it is. The
/// other keys keep their place and the way they are written.
pub open spec fn without_key(n: Node, key: Seq<char>) -> Node {
    n.rebuilt(n.entries().remove(key), n.shape().without(set![key]))
}

/// A node without the keys that hold something, but for `keep`, where it is
/// a table; else the node as it is. The keys that stay keep their place and
/// the way they are written.
pub open spec fn emptied(n: Node, keep: Option<Seq<char>>) -> Node {
    n.rebuilt(
        without_held(n.entries(), keep),
        n.shape().without(held_but(n.entries(), keep)),
    )
}

/// What `source` is after clearing: of its keys only `crates-io` stays, and
/// that without its `replace-with`.
pub open spec fn cleared_source(n: Node) -> Node {
    let kept = emptied(n, Some(CRATES_IO@));
    if kept.entries().contains_key(CRATES_IO@) {
        kept.rebuilt(
            kept.entries().insert(
                CRATES_IO@,
                without_key(kept.entries()[CRATES_IO@], REPLACE_WITH@),
            ),
            kept.shape(),
        )
    } else {
        kept
    }
}

/// What `registries` is after clearing: none of its keys stays.
pub open spec fn cleared_registries(n: Node) -> Node {
    emptied(n, None)
}

/// A document after clearing. Under `source`, `registries` and `net`, where
/// they are tables, in either way of writing one, the keys of a mirror are
/// gone; every other key is as it was, in its place and written as it was.
/// A document whose root is no table is as it was.
pub open spec fn cleared(t: Node) -> Node {
    t.rebuilt(
        Map::new(
            |k: Seq<char>| t.entries().contains_key(k),
            |k: Seq<char>|
                if k == SOURCE@ {
                    cleared_source(t.entries()[k])
                } else if k == REGISTRIES@ {
                    cleared_registries(t.entries()[k])
                } else if k == NET@ {
                    without_key(t.entries()[k], GIT_FETCH_WITH_CLI@)
                } else {
                    t.entries()[k]
                },
        ),
        t.shape(),
    )
}

/// The address under which a mirror's index is fetched sparsely.
pub open spec fn sparse_url(url: Seq<char>) -> Seq<char> {
    SPARSE_PREFIX@ + without_trailing_slashes(url) + "/"@
}

/// Whether the mirror `name` can be installed: the root is a table, and
/// wherever a table is needed there is a table, in either way of writing
/// one, or nothing, never a value.
pub open spec fn installable(t: Node, name: Seq<char>) -> bool {
    &&& t.is_table_like()
    &&& t.child(SOURCE@).is_free()
    &&& t.child(SOURCE@).child(CRATES_IO@).is_free()
    &&& t.child(SOURCE@).child(name).is_free()
    &&& name == RSPROXY@ ==> {
        &&& t.child(SOURCE@).child(RSPROXY_SPARSE@).is_free()
        &&& t.child(REGISTRIES@).is_free()
        &&& t.child(REGISTRIES@).child(RSPROXY@).is_free()
        &&& t.child(NET@).is_free()
    }
}

/// A document after the mirror `name` at `url` is installed in it. What is
/// installed is plainly written; a key that was there keeps its place, and
/// a new key comes last in its table.
pub open spec fn installed(t: Node, name: Seq<char>, url: Seq<char>) -> Node {
    if name == RSPROXY@ {
        t.with3(SOURCE@, CRATES_IO@, REPLACE_WITH@, Node::plain_text(RSPROXY_SPARSE@)).with3(
            SOURCE@,
            RSPROXY@,
            REGISTRY@,
            Node::plain_text(RSPROXY_INDEX@),
        ).with3(SOURCE@, RSPROXY_SPARSE@, REGISTRY@, Node::plain_text(RSPROXY_SPARSE_INDEX@)).with3(
            REGISTRIES@,
            RSPROXY@,
            INDEX@,
            Node::plain_text(RSPROXY_INDEX@),
        ).with2(NET@, GIT_FETCH_WITH_CLI@, Node::plain_flag(true))
    } else {
        t.with3(SOURCE@, CRATES_IO@, REPLACE_WITH@, Node::plain_text(name)).with3(
            SOURCE@,
            name,
            REGISTRY@,
            Node::plain_text(sparse_url(url)),
        )
    }
}

/// A document after a mirror is set: cleared, then installed.
pub open spec fn applied(t: Node, name: Seq<char>, url: Seq<char>) -> Node {
    installed(cleared(t), name, url)
}

/// How a mirror is shown, from the name that replaces crates.io and the
/// address stored for it: by the name of the first known mirror that has
/// this address or, unless the name is `rsproxy-sparse`, this name; else by
/// the address as it is stored.
pub open spec fn shown_as(alias: Seq<char>, url: Seq<char>) -> Seq<char> {
    let found = if alias == RSPROXY_SPARSE@ {
        first_wanted(None, Some(url), 0)
    } else {
        first_wanted(Some(alias), Some(url), 0)
    };
    match found {
        Some(e) => e.0,
        None => url,
    }
}

/// The source whose address is read for the name that replaces crates.io.
pub open spec fn source_of(alias: Seq<char>) -> Seq<char> {
    if alias == RSPROXY_SPARSE@ {
        RSPROXY@
    } else {
        alias
    }
}

/// The mirror that a document has set, as it is shown; `None` where
/// `source.crates-io.replace-with` is no string, or the source it names has
/// no string under `registry`.
pub open spec fn current(t: Node) -> Option<Seq<char>> {
    match t.child(SOURCE@).child(CRATES_IO@).child(REPLACE_WITH@).text() {
        Some(alias) => match t.child(SOURCE@).child(source_of(alias)).child(REGISTRY@).text() {
            Some(url) => Some(shown_as(alias, url)),
            None => None,
        },
        None => None,
    }
}

} // verus!
