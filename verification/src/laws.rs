//! What holds of clearing, setting and showing, whatever the document.

use vstd::prelude::*;
use toml_edit::DocumentMut;
use crate::document::doc_view;
use crate::keys::{
    CRATES_IO, CUSTOM, GIT_FETCH_WITH_CLI, INDEX, NET, REGISTRIES, REGISTRY, REPLACE_WITH,
    RSPROXY, RSPROXY_INDEX, RSPROXY_SPARSE, RSPROXY_SPARSE_INDEX, SOURCE, lemma_key_texts,
    lemma_root_keys_differ,
};
use crate::patcher::is_cleared;
use crate::registry::{first_wanted, known_proxies, lemma_known_proxies, resolution};
use crate::rules::{
    applied, cleared, cleared_source, current, emptied, held_but, installable, installed,
    shown_as, sparse_url, without_held, without_key,
};
use crate::tree::{Node, Shape, lemma_shape_without_none, lemma_shape_without_twice};

verus! {

/// Emptying an emptied node changes nothing.
proof fn lemma_emptied_twice(n: Node, keep: Option<Seq<char>>)
    ensures
        emptied(emptied(n, keep), keep) == emptied(n, keep),
{
    if n.is_table_like() {
        let once = without_held(n.entries(), keep);
        assert(without_held(once, keep) =~= once);
        lemma_shape_without_none(
            n.shape().without(held_but(n.entries(), keep)),
            held_but(once, keep),
        );
    }
}

/// Taking a key out of a node a second time changes nothing.
proof fn lemma_without_key_twice(n: Node, key: Seq<char>)
    ensures
        without_key(without_key(n, key), key) == without_key(n, key),
{
    if n.is_table_like() {
        assert(n.entries().remove(key).remove(key) =~= n.entries().remove(key));
        lemma_shape_without_twice(n.shape(), set![key], set![key]);
        assert(set![key].union(set![key]) =~= set![key]);
    }
}

/// Clearing `source` a second time changes nothing.
proof fn lemma_cleared_source_twice(n: Node)
    ensures
        cleared_source(cleared_source(n)) == cleared_source(n),
{
    if n.is_table_like() {
        let kept = emptied(n, Some(CRATES_IO@));
        lemma_emptied_twice(n, Some(CRATES_IO@));
        if kept.entries().contains_key(CRATES_IO@) {
            let inner = without_key(kept.entries()[CRATES_IO@], REPLACE_WITH@);
            let once = kept.rebuilt(kept.entries().insert(CRATES_IO@, inner), kept.shape());
            lemma_without_key_twice(kept.entries()[CRATES_IO@], REPLACE_WITH@);
            assert(without_held(once.entries(), Some(CRATES_IO@)) =~= once.entries());
            lemma_shape_without_none(once.shape(), held_but(once.entries(), Some(CRATES_IO@)));
            assert(emptied(once, Some(CRATES_IO@)) == once);
            assert(once.entries().insert(
                CRATES_IO@,
                without_key(once.entries()[CRATES_IO@], REPLACE_WITH@),
            ) =~= once.entries());
        }
    }
}

/// Clearing a cleared tree changes nothing.
pub proof fn clear_is_idempotent(t: Node)
    ensures
        cleared(cleared(t)) == cleared(t),
{
    lemma_root_keys_differ();
    if t.is_table_like() {
        let root = t.entries();
        let once = cleared(t).entries();
        let twice = cleared(cleared(t)).entries();
        assert forall|k: Seq<char>| once.contains_key(k) implies twice[k] == once[k] by {
            let n = root[k];
            if k == SOURCE@ {
                lemma_cleared_source_twice(n);
            } else if k == REGISTRIES@ {
                lemma_emptied_twice(n, None);
            } else if k == NET@ {
                lemma_without_key_twice(n, GIT_FETCH_WITH_CLI@);
            }
        }
        assert(twice =~= once);
    }
}

/// Clearing a document twice gives the document that clearing it once
/// gives.
pub proof fn clearing_twice_is_clearing_once(
    start: DocumentMut,
    once: DocumentMut,
    twice: DocumentMut,
)
    requires
        is_cleared(start, once),
        is_cleared(once, twice),
    ensures
        twice == once,
{
    clear_is_idempotent(doc_view(start));
}

/// Clearing and setting change nothing outside the keys of a mirror: under
/// the root every key but `source`, `registries` and `net` holds what it
/// held, and so does every key under `net` but `git-fetch-with-cli`.
pub proof fn unrelated_keys_are_kept(t: Node, name: Seq<char>, url: Seq<char>, key: Seq<char>)
    ensures
        key != SOURCE@ && key != REGISTRIES@ && key != NET@ ==> cleared(t).child(key) == t.child(
            key,
        ) && applied(t, name, url).child(key) == t.child(key),
        key != GIT_FETCH_WITH_CLI@ ==> cleared(t).child(NET@).child(key) == t.child(NET@).child(
            key,
        ) && applied(t, name, url).child(NET@).child(key) == t.child(NET@).child(key),
{
    lemma_root_keys_differ();
}

/// Clearing moves no key and changes the way no key is written. Under the
/// root every key stays where it is; under `net` the keys that stay keep
/// their order and the way they are written.
pub proof fn clear_keeps_places(t: Node)
    ensures
        cleared(t).shape() == t.shape(),
        cleared(t).child(NET@).shape() == t.child(NET@).shape().without(
            set![GIT_FETCH_WITH_CLI@],
        ),
{
    lemma_root_keys_differ();
    let gone = set![GIT_FETCH_WITH_CLI@];
    assert(Shape::plain().keys.remove_keys(gone) =~= Shape::plain().keys);
    assert(Shape::plain().without(gone) == Shape::plain());
}

/// Setting moves no key that was there and changes the way none of them is
/// written: the keys under the root keep their order, before the keys that
/// are new, and the root keeps its decoration.
pub proof fn set_keeps_places(t: Node, name: Seq<char>, url: Seq<char>, key: Seq<char>)
    requires
        t.is_table_like(),
    ensures
        t.shape().order.is_prefix_of(applied(t, name, url).shape().order),
        applied(t, name, url).shape().decor == t.shape().decor,
        t.entries().contains_key(key) && t.shape().keys.contains_key(key) ==> applied(
            t,
            name,
            url,
        ).shape().keys.contains_key(key) && applied(t, name, url).shape().keys[key]
            == t.shape().keys[key],
{
    lemma_root_keys_differ();
    let c = cleared(t);
    if name == RSPROXY@ {
        let one = c.with3(SOURCE@, CRATES_IO@, REPLACE_WITH@, Node::plain_text(RSPROXY_SPARSE@));
        let two = one.with3(SOURCE@, RSPROXY@, REGISTRY@, Node::plain_text(RSPROXY_INDEX@));
        let three = two.with3(
            SOURCE@,
            RSPROXY_SPARSE@,
            REGISTRY@,
            Node::plain_text(RSPROXY_SPARSE_INDEX@),
        );
        let four = three.with3(REGISTRIES@, RSPROXY@, INDEX@, Node::plain_text(RSPROXY_INDEX@));
        let five = four.with2(NET@, GIT_FETCH_WITH_CLI@, Node::plain_flag(true));
        assert(c.shape().order.is_prefix_of(one.shape().order));
        assert(one.shape().order.is_prefix_of(two.shape().order));
        assert(two.shape().order.is_prefix_of(three.shape().order));
        assert(three.shape().order.is_prefix_of(four.shape().order));
        assert(four.shape().order.is_prefix_of(five.shape().order));
    } else {
        let one = c.with3(SOURCE@, CRATES_IO@, REPLACE_WITH@, Node::plain_text(name));
        let two = one.with3(SOURCE@, name, REGISTRY@, Node::plain_text(sparse_url(url)));
        assert(c.shape().order.is_prefix_of(one.shape().order));
        assert(one.shape().order.is_prefix_of(two.shape().order));
    }
}

/// Clearing keeps what `source.crates-io` holds beside `replace-with`.
pub proof fn clear_keeps_crates_io(t: Node, key: Seq<char>)
    requires
        key != REPLACE_WITH@,
    ensures
        cleared(t).child(SOURCE@).child(CRATES_IO@).child(key) == t.child(SOURCE@).child(
            CRATES_IO@,
        ).child(key),
{
    lemma_root_keys_differ();
}

/// Setting a mirror keeps what `source.crates-io` holds beside
/// `replace-with`.
pub proof fn set_keeps_crates_io(t: Node, name: Seq<char>, url: Seq<char>, key: Seq<char>)
    requires
        key != REPLACE_WITH@,
        name != CRATES_IO@,
        installable(cleared(t), name),
    ensures
        applied(t, name, url).child(SOURCE@).child(CRATES_IO@).child(key) == t.child(
            SOURCE@,
        ).child(CRATES_IO@).child(key),
{
    lemma_root_keys_differ();
    lemma_key_texts();
    clear_keeps_crates_io(t, key);
}

/// After clearing, no mirror is set.
pub proof fn cleared_has_no_proxy(t: Node)
    ensures
        current(cleared(t)) is None,
{
}

/// A request whose lowercase form is the name of a known mirror stands for
/// that mirror, whatever else the request is.
pub proof fn known_name_is_resolved(i: int, input: Seq<char>)
    requires
        0 <= i < known_proxies().len(),
    ensures
        resolution(known_proxies()[i].0, input) == Some(known_proxies()[i]),
{
    lemma_known_proxies();
    reveal_with_fuel(first_wanted, 5);
}

/// A mirror that is set under a name of its own is shown from that name
/// and the address of its sparse index.
pub proof fn show_after_set(t: Node, name: Seq<char>, url: Seq<char>)
    requires
        name != RSPROXY@,
        name != RSPROXY_SPARSE@,
        name != CRATES_IO@,
    ensures
        current(applied(t, name, url)) == Some(shown_as(name, sparse_url(url))),
{
}

/// Every known mirror but `rsproxy` is shown by its name once it is set.
pub proof fn known_proxy_is_shown_by_name(t: Node, i: int)
    requires
        1 <= i < known_proxies().len(),
    ensures
        current(applied(t, known_proxies()[i].0, known_proxies()[i].1)) == Some(
            known_proxies()[i].0,
        ),
{
    lemma_known_proxies();
    lemma_key_texts();
    let name = known_proxies()[i].0;
    let url = known_proxies()[i].1;
    show_after_set(t, name, url);
    assert(sparse_url(url)[0] == 's');
    reveal_with_fuel(first_wanted, 5);
}

/// `rsproxy`, once set, is shown by the address of its index: that address
/// is stored without the slash that ends the known one.
pub proof fn rsproxy_is_shown_by_address(t: Node)
    ensures
        current(applied(t, known_proxies()[0].0, known_proxies()[0].1)) == Some(RSPROXY_INDEX@),
{
    lemma_known_proxies();
    lemma_key_texts();
    reveal_with_fuel(first_wanted, 5);
}

/// An address that is set as the mirror `custom` is shown as the address of
/// its sparse index.
pub proof fn custom_is_shown_by_sparse_address(t: Node, url: Seq<char>)
    ensures
        current(applied(t, CUSTOM@, url)) == Some(sparse_url(url)),
{
    lemma_known_proxies();
    lemma_key_texts();
    show_after_set(t, CUSTOM@, url);
    assert(sparse_url(url)[0] == 's');
    reveal_with_fuel(first_wanted, 5);
}

/// Setting `rsproxy` sets `net.git-fetch-with-cli` and makes the sources
/// `rsproxy` and `rsproxy-sparse`. Installing any other mirror leaves `net`
/// and `registries` as they are, so that after setting one `net` is as
/// clearing leaves it: without `git-fetch-with-cli`.
pub proof fn only_rsproxy_sets_git_fetch(t: Node, name: Seq<char>, url: Seq<char>)
    ensures
        name == RSPROXY@ ==> {
            &&& applied(t, name, url).child(NET@).child(GIT_FETCH_WITH_CLI@) == Node::plain_flag(true)
            &&& applied(t, name, url).child(SOURCE@).child(RSPROXY@).is_table_like()
            &&& applied(t, name, url).child(SOURCE@).child(RSPROXY_SPARSE@).is_table_like()
        },
        name != RSPROXY@ ==> {
            &&& installed(t, name, url).child(NET@) == t.child(NET@)
            &&& installed(t, name, url).child(REGISTRIES@) == t.child(REGISTRIES@)
            &&& applied(t, name, url).child(NET@) == cleared(t).child(NET@)
            &&& applied(t, name, url).child(NET@).child(GIT_FETCH_WITH_CLI@) is Absent
        },
{
    lemma_key_texts();
}

} // verus!
