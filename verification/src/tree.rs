//! The tree that a configuration document stands for.

use vstd::prelude::*;

verus! {

/// What a table keeps beside what its keys hold.
pub struct Shape {
    /// The stored keys, in the order in which the table keeps them.
    pub order: Seq<Seq<char>>,
    /// How each stored key is written: a text that stands for the spelling
    /// and the decoration stored for it, empty where none is stored, as for
    /// a key that was made and not read.
    pub keys: Map<Seq<char>, Seq<char>>,
    /// A text that stands for the decoration stored for the table itself,
    /// empty where none is stored.
    pub decor: Seq<char>,
}

/// `order` without the keys in `gone`, the others in the order they had.
pub open spec fn without_keys(order: Seq<Seq<char>>, gone: Set<Seq<char>>) -> Seq<Seq<char>>
    decreases order.len(),
{
    if order.len() == 0 {
        order
    } else if gone.contains(order.last()) {
        without_keys(order.drop_last(), gone)
    } else {
        without_keys(order.drop_last(), gone).push(order.last())
    }
}

impl Shape {
    /// The shape of a table that was made and has no keys.
    pub open spec fn plain() -> Shape {
        Shape { order: Seq::empty(), keys: Map::empty(), decor: Seq::empty() }
    }

    /// This shape without the keys in `gone`: the others keep their place
    /// and the way they are written.
    pub open spec fn without(self, gone: Set<Seq<char>>) -> Shape {
        Shape {
            order: without_keys(self.order, gone),
            keys: self.keys.remove_keys(gone),
            decor: self.decor,
        }
    }

    /// This shape with the new key `key`: it comes last, plainly written.
    pub open spec fn added(self, key: Seq<char>) -> Shape {
        Shape {
            order: self.order.push(key),
            keys: self.keys.insert(key, Seq::empty()),
            decor: self.decor,
        }
    }
}

/// What one key of a table holds.
#[verifier::ext_equal]
pub enum Node {
    /// Nothing: the key is vacant, or holds an item that is none.
    Absent,
    /// A table under a header of its own: what its keys hold, and its shape.
    Table(Map<Seq<char>, Node>, Shape),
    /// A table written between braces: what its keys hold, and its shape.
    Inline(Map<Seq<char>, Node>, Shape),
    /// A string, and a text that stands for the spelling and the decoration
    /// stored for it, empty where none is stored, as for a string that was
    /// made and not read.
    Text(Seq<char>, Seq<char>),
    /// A boolean, and what is stored for it, as for a string.
    Flag(bool, Seq<char>),
    /// Anything else (a number, a date, an array, an array of tables), by
    /// the text it is written as.
    Other(Seq<char>),
}

impl Node {
    /// A table under a header of its own, without keys and without
    /// decoration.
    pub open spec fn empty_table() -> Node {
        Node::Table(Map::empty(), Shape::plain())
    }

    /// The string `s`, as it is when it was made and not read.
    pub open spec fn plain_text(s: Seq<char>) -> Node {
        Node::Text(s, Seq::empty())
    }

    /// The boolean `b`, as it is when it was made and not read.
    pub open spec fn plain_flag(b: bool) -> Node {
        Node::Flag(b, Seq::empty())
    }

    /// Whether this is a table, in either way of writing one.
    pub open spec fn is_table_like(self) -> bool {
        self is Table || self is Inline
    }

    /// What the keys of a table hold; no keys for anything else.
    pub open spec fn entries(self) -> Map<Seq<char>, Node> {
        match self {
            Node::Table(m, _) => m,
            Node::Inline(m, _) => m,
            _ => Map::empty(),
        }
    }

    /// The shape of a table; the plain shape for anything else.
    pub open spec fn shape(self) -> Shape {
        match self {
            Node::Table(_, s) => s,
            Node::Inline(_, s) => s,
            _ => Shape::plain(),
        }
    }

    /// What `key` holds in this table.
    pub open spec fn child(self, key: Seq<char>) -> Node {
        if self.entries().contains_key(key) {
            self.entries()[key]
        } else {
            Node::Absent
        }
    }

    /// The string that this node is, if it is one.
    pub open spec fn text(self) -> Option<Seq<char>> {
        match self {
            Node::Text(s, _) => Some(s),
            _ => None,
        }
    }

    /// Whether a table can stand here without replacing a value: there is a
    /// table already, or nothing.
    pub open spec fn is_free(self) -> bool {
        self.is_table_like() || self is Absent
    }

    /// This table with the keys `m` and the shape `shape` in place of its
    /// own, written the way it was; anything else as it is.
    pub open spec fn rebuilt(self, m: Map<Seq<char>, Node>, shape: Shape) -> Node {
        match self {
            Node::Table(_, _) => Node::Table(m, shape),
            Node::Inline(_, _) => Node::Inline(m, shape),
            _ => self,
        }
    }

    /// An empty table, written the way this table is.
    pub open spec fn fresh(self) -> Node {
        match self {
            Node::Inline(_, _) => Node::Inline(Map::empty(), Shape::plain()),
            _ => Node::Table(Map::empty(), Shape::plain()),
        }
    }

    /// The table under `key`: the one that is there, else a fresh one.
    pub open spec fn sub(self, key: Seq<char>) -> Node {
        if self.child(key).is_table_like() {
            self.child(key)
        } else {
            self.fresh()
        }
    }

    /// This table with `node` under `key`. A key that is stored keeps its
    /// place and the way it is written; a new key comes last.
    pub open spec fn with(self, key: Seq<char>, node: Node) -> Node {
        let shape = if self.entries().contains_key(key) {
            self.shape()
        } else {
            self.shape().added(key)
        };
        match self {
            Node::Inline(m, _) => Node::Inline(m.insert(key, node), shape),
            _ => Node::Table(self.entries().insert(key, node), shape),
        }
    }

    /// This table with `node` under `a.b`; the table `a` is made if it is
    /// not there.
    pub open spec fn with2(self, a: Seq<char>, b: Seq<char>, node: Node) -> Node {
        self.with(a, self.sub(a).with(b, node))
    }

    /// This table with `node` under `a.b.c`.
    pub open spec fn with3(self, a: Seq<char>, b: Seq<char>, c: Seq<char>, node: Node) -> Node {
        self.with(a, self.sub(a).with2(b, c, node))
    }
}

/// Whether `key` holds something in `m`.
pub open spec fn held(m: Map<Seq<char>, Node>, key: Seq<char>) -> bool {
    m.contains_key(key) && !(m[key] is Absent)
}

/// Nothing is taken out of an order where no key is to go.
pub(crate) proof fn lemma_without_none(order: Seq<Seq<char>>, gone: Set<Seq<char>>)
    requires
        forall|i: int| 0 <= i < order.len() ==> !gone.contains(#[trigger] order[i]),
    ensures
        without_keys(order, gone) == order,
    decreases order.len(),
{
    if order.len() > 0 {
        lemma_without_none(order.drop_last(), gone);
        assert(order.drop_last().push(order.last()) =~= order);
    }
}

/// Taking keys out in two steps is taking them out at once.
pub(crate) proof fn lemma_without_twice(order: Seq<Seq<char>>, a: Set<Seq<char>>, b: Set<Seq<char>>)
    ensures
        without_keys(without_keys(order, a), b) == without_keys(order, a.union(b)),
    decreases order.len(),
{
    if order.len() > 0 {
        lemma_without_twice(order.drop_last(), a, b);
        let rest = without_keys(order.drop_last(), a);
        if !a.contains(order.last()) {
            assert(rest.push(order.last()).drop_last() =~= rest);
        }
    }
}

/// A shape from which no key is to go stays as it is.
pub(crate) proof fn lemma_shape_without_none(shape: Shape, gone: Set<Seq<char>>)
    requires
        forall|k: Seq<char>| !gone.contains(k),
    ensures
        shape.without(gone) == shape,
{
    lemma_without_none(shape.order, gone);
    assert(shape.keys.remove_keys(gone) =~= shape.keys);
}

/// Taking keys out of a shape in two steps is taking them out at once.
pub(crate) proof fn lemma_shape_without_twice(shape: Shape, a: Set<Seq<char>>, b: Set<Seq<char>>)
    ensures
        shape.without(a).without(b) == shape.without(a.union(b)),
{
    lemma_without_twice(shape.order, a, b);
    assert(shape.keys.remove_keys(a).remove_keys(b) =~= shape.keys.remove_keys(a.union(b)));
}

} // verus!
