//! The `toml_edit` items that the library works with, and what is taken on
//! trust of them.
//!
//! Nothing here is proved. Each contract says what the named function of
//! `toml_edit` does to the tree of the value it is called on.

use vstd::prelude::*;
use toml_edit::{DocumentMut, InlineTable, Item, Table, TableLike};
use crate::tree::{Node, Shape, held};

verus! {

#[verifier::external_type_specification]
#[verifier::external_body]
pub struct ExDocumentMut(toml_edit::DocumentMut);

#[verifier::external_type_specification]
#[verifier::external_body]
pub struct ExItem(toml_edit::Item);

#[verifier::external_type_specification]
#[verifier::external_body]
pub struct ExTable(toml_edit::Table);

#[verifier::external_type_specification]
#[verifier::external_body]
pub struct ExInlineTable(toml_edit::InlineTable);

/// The keys that a table stores, each with what it holds. A key that stores
/// the item `Item::None` is in the map, as `Node::Absent`.
pub uninterp spec fn table_view(t: Table) -> Map<Seq<char>, Node>;

/// The shape of a table: its keys in the order in which it stores them,
/// how each key is written, and its own decoration.
pub uninterp spec fn table_shape(t: Table) -> Shape;

/// The keys that an inline table stores, each with what it holds, as for
/// `table_view`.
pub uninterp spec fn inline_view(t: InlineTable) -> Map<Seq<char>, Node>;

/// The shape of an inline table, as for `table_shape`.
pub uninterp spec fn inline_shape(t: InlineTable) -> Shape;

/// What an item is: `Item::None` is `Absent`, `Item::Table` a `Table` of
/// `table_view` and `table_shape`, a value that is an inline table an
/// `Inline` of `inline_view` and `inline_shape`, a string value `Text`, a
/// boolean value `Flag`, each with the representation and the decoration
/// that it stores, and every other item `Other`, with the text that its
/// `to_string` gives.
pub uninterp spec fn item_view(i: Item) -> Node;

/// The tree of a document: what its root item is.
pub uninterp spec fn doc_view(d: DocumentMut) -> Node;

/// The tree of the document that `toml_edit` reads from a text, where it
/// reads one.
pub uninterp spec fn parsed_tree(text: Seq<char>) -> Option<Node>;

/// The text that `toml_edit` writes for a document. It hangs on more than
/// the tree: on the comments, the layout and the order that the document
/// keeps.
pub uninterp spec fn written(d: DocumentMut) -> Seq<char>;

/// `DocumentMut::new`: a document whose root is a table without keys and
/// without decoration.
pub assume_specification[ toml_edit::DocumentMut::new ]() -> (r: DocumentMut)
    ensures
        doc_view(r) == Node::empty_table(),
;

/// `DocumentMut::as_item`: the root item.
pub assume_specification[ toml_edit::DocumentMut::as_item ](doc: &DocumentMut) -> (r: &Item)
    ensures
        item_view(*r) == doc_view(*doc),
;

/// `DocumentMut::as_item_mut`: the root item; what is written to it is the
/// document's root afterwards, and a document whose root is left as it was
/// is as it was.
pub assume_specification[ toml_edit::DocumentMut::as_item_mut ](doc: &mut DocumentMut) -> (r:
    &mut Item)
    ensures
        item_view(*r) == doc_view(*old(doc)),
        doc_view(*final(doc)) == item_view(*final(r)),
        *final(r) == *r ==> *final(doc) == *old(doc),
;

/// `Item::is_none`: whether the item is `Item::None`.
pub assume_specification[ toml_edit::Item::is_none ](item: &Item) -> (r: bool)
    ensures
        r == (item_view(*item) is Absent),
;

/// `Item::is_inline_table`: whether the item is a value that is an inline
/// table.
pub assume_specification[ toml_edit::Item::is_inline_table ](item: &Item) -> (r: bool)
    ensures
        r == (item_view(*item) is Inline),
;

/// `Item::is_table_like`: whether the item is a table or an inline table.
pub assume_specification[ toml_edit::Item::is_table_like ](item: &Item) -> (r: bool)
    ensures
        r == item_view(*item).is_table_like(),
;

/// `Item::as_table`: the table of an `Item::Table`, and `None` for every
/// other item (an inline table too).
pub assume_specification[ toml_edit::Item::as_table ](item: &Item) -> (r: Option<&Table>)
    ensures
        match r {
            Some(t) => item_view(*item) == Node::Table(table_view(*t), table_shape(*t)),
            None => !(item_view(*item) is Table),
        },
;

/// `Item::as_table_mut`: as `as_table`; what is done to the table is done
/// to the item. An item that is no table stays as it is, and so does one
/// whose table is left as it was.
pub assume_specification[ toml_edit::Item::as_table_mut ](item: &mut Item) -> (r: Option<
    &mut Table,
>)
    ensures
        match r {
            Some(t) => {
                &&& item_view(*old(item)) == Node::Table(table_view(*t), table_shape(*t))
                &&& item_view(*final(item)) == Node::Table(
                    table_view(*final(t)),
                    table_shape(*final(t)),
                )
                &&& *final(t) == *t ==> *final(item) == *old(item)
            },
            None => !(item_view(*old(item)) is Table) && *final(item) == *old(item),
        },
;

/// `Item::as_inline_table`: the inline table of a value that is one, and
/// `None` for every other item.
pub assume_specification[ toml_edit::Item::as_inline_table ](item: &Item) -> (r: Option<
    &InlineTable,
>)
    ensures
        match r {
            Some(t) => item_view(*item) == Node::Inline(inline_view(*t), inline_shape(*t)),
            None => !(item_view(*item) is Inline),
        },
;

/// `Item::as_inline_table_mut`: as `as_inline_table`; what is done to the
/// inline table is done to the item. An item that is no inline table stays
/// as it is, and so does one whose inline table is left as it was.
pub assume_specification[ toml_edit::Item::as_inline_table_mut ](item: &mut Item) -> (r: Option<
    &mut InlineTable,
>)
    ensures
        match r {
            Some(t) => {
                &&& item_view(*old(item)) == Node::Inline(inline_view(*t), inline_shape(*t))
                &&& item_view(*final(item)) == Node::Inline(
                    inline_view(*final(t)),
                    inline_shape(*final(t)),
                )
                &&& *final(t) == *t ==> *final(item) == *old(item)
            },
            None => !(item_view(*old(item)) is Inline) && *final(item) == *old(item),
        },
;

/// `Item::as_str`: the characters of a string value, and `None` for every
/// other item.
pub assume_specification[ toml_edit::Item::as_str ](item: &Item) -> (r: Option<&str>)
    ensures
        match r {
            Some(s) => item_view(*item).text() == Some(s@),
            None => item_view(*item).text() is None,
        },
;

/// `toml_edit::table`: an item that is a table without keys and without
/// decoration.
pub assume_specification[ toml_edit::table ]() -> (r: Item)
    ensures
        item_view(r) == Node::empty_table(),
;

/// `Table::remove`: takes `key` out with the item stored under it, whatever
/// that item is, and hands the item back. No other key changes: each keeps
/// what it holds, its place among the others and the way it is written. A
/// table that does not store `key` stays as it is.
pub assume_specification[ toml_edit::Table::remove ](t: &mut Table, key: &str) -> (r: Option<
    Item,
>)
    ensures
        table_view(*final(t)) == table_view(*old(t)).remove(key@),
        table_shape(*final(t)) == table_shape(*old(t)).without(set![key@]),
        match r {
            Some(i) => table_view(*old(t)).contains_key(key@) && item_view(i) == table_view(
                *old(t),
            )[key@],
            None => !table_view(*old(t)).contains_key(key@) && *final(t) == *old(t),
        },
;

/// `InlineTable::remove`: takes `key` out with what is stored under it. No
/// other key changes: each keeps what it holds, its place among the others
/// and the way it is written. An inline table that does not store `key`
/// stays as it is.
#[verifier::external_body]
pub(crate) fn inline_remove(t: &mut InlineTable, key: &str)
    ensures
        inline_view(*final(t)) == inline_view(*old(t)).remove(key@),
        inline_shape(*final(t)) == inline_shape(*old(t)).without(set![key@]),
        !inline_view(*old(t)).contains_key(key@) ==> *final(t) == *old(t),
{
    t.remove(key);
}

/// `Item::get` with a key: the item stored under `key` in a table or an
/// inline table, unless there is none or it is `Item::None`; `None` for an
/// item that is neither.
#[verifier::external_body]
pub(crate) fn item_get<'a>(item: &'a Item, key: &str) -> (r: Option<&'a Item>)
    ensures
        match r {
            Some(i) => held(item_view(*item).entries(), key@) && item_view(*i) == item_view(
                *item,
            ).child(key@),
            None => !held(item_view(*item).entries(), key@),
        },
{
    item.get(key)
}

/// `Item::get_mut` with a key, on a table or an inline table: the item
/// stored under `key`, and `Item::None`, stored now, where none was. What
/// is written to the item is stored under `key` afterwards. A key that was
/// stored keeps its place and the way it is written, a new key comes last
/// and is plainly written, and no other key changes. Where `key` was stored
/// and its item is left as it was, the table is as it was. On an item that
/// is no table the function does something else, so it is called on none.
#[verifier::external_body]
pub(crate) fn item_slot<'a>(item: &'a mut Item, key: &str) -> (r: Option<&'a mut Item>)
    requires
        item_view(*old(item)).is_table_like(),
    ensures
        match r {
            Some(slot) => {
                &&& item_view(*slot) == item_view(*old(item)).child(key@)
                &&& item_view(*final(item)) == item_view(*old(item)).with(
                    key@,
                    item_view(*final(slot)),
                )
                &&& item_view(*old(item)).entries().contains_key(key@) && *final(slot) == *slot
                    ==> *final(item) == *old(item)
            },
            None => false,
        },
{
    item.get_mut(key)
}

/// Whether `key` is among the first `n` of `keys`.
pub open spec fn among(keys: Seq<String>, n: int, key: Seq<char>) -> bool {
    exists|j: int| 0 <= j < n && #[trigger] keys[j]@ == key
}

/// `Table::iter`: the keys that hold something, and no others.
#[verifier::external_body]
pub(crate) fn held_keys(t: &Table) -> (keys: Vec<String>)
    ensures
        forall|k: Seq<char>| held(table_view(*t), k) <==> among(keys@, keys@.len() as int, k),
{
    t.iter().map(|(k, _)| k.to_string()).collect()
}

/// `TableLike::iter` of an inline table: the keys that it stores, those
/// that store `Item::None` too, and no others.
#[verifier::external_body]
pub(crate) fn inline_keys(t: &InlineTable) -> (keys: Vec<String>)
    ensures
        forall|k: Seq<char>|
            inline_view(*t).contains_key(k) <==> among(keys@, keys@.len() as int, k),
{
    TableLike::iter(t).map(|(k, _)| k.to_string()).collect()
}

/// `toml_edit::value` on a string: an item that is that string, with no
/// representation and no decoration stored.
#[verifier::external_body]
pub(crate) fn text_item(s: &str) -> (r: Item)
    ensures
        item_view(r) == Node::plain_text(s@),
{
    toml_edit::value(s)
}

/// `toml_edit::value` on a boolean: an item that is that boolean, with no
/// representation and no decoration stored.
#[verifier::external_body]
pub(crate) fn flag_item(b: bool) -> (r: Item)
    ensures
        item_view(r) == Node::plain_flag(b),
{
    toml_edit::value(b)
}

/// `toml_edit::value` on `InlineTable::new`: an item that is an inline
/// table without keys and without decoration.
#[verifier::external_body]
pub(crate) fn inline_table_item() -> (r: Item)
    ensures
        item_view(r) == Node::Inline(Map::empty(), Shape::plain()),
{
    toml_edit::value(InlineTable::new())
}

/// `str::parse::<DocumentMut>`: the document that the text is, or `None`
/// where the text is no TOML. The root of a document that was read is a
/// table.
#[verifier::external_body]
pub(crate) fn parse_document(text: &str) -> (r: Option<DocumentMut>)
    ensures
        match r {
            Some(d) => parsed_tree(text@) == Some(doc_view(d)) && doc_view(d) is Table,
            None => parsed_tree(text@) is None,
        },
{
    text.parse::<DocumentMut>().ok()
}

/// `DocumentMut::to_string`: the document as text. It panics on a document
/// whose root is no table, so such a document is not accepted.
#[verifier::external_body]
pub(crate) fn write_document(doc: &DocumentMut) -> (r: String)
    requires
        doc_view(*doc) is Table,
    ensures
        r@ == written(*doc),
{
    doc.to_string()
}

} // verus!
