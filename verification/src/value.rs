//! Values of the configuration format that manifests and configuration files
//! are written in.

use vstd::prelude::*;

use crate::text::{same_text, views};

verus! {

#[verifier::external_type_specification]
#[verifier::external_body]
pub struct ExOutsideValue(toml::Value);

#[verifier::external_type_specification]
#[verifier::external_body]
pub struct ExOutsideParseError(toml::de::Error);

/// A value of a document, as this crate reads it: the parser's own value is
/// closed to the verifier, so what the crate looks into (tables, arrays,
/// strings, integers, booleans) is held here, and the parser still reads
/// and writes every document. A table holds its entries in the order of
/// their keys, as the parser hands them out, and no key twice (see
/// [`NodeView::wf`]).
#[derive(Debug)]
pub enum Node {
    String(String),
    Integer(i64),
    Boolean(bool),
    Array(Vec<Node>),
    Table(Vec<(String, Node)>),
    /// A float or a date: nothing here reads one, so it is carried along as
    /// the parser made it.
    Other(toml::Value),
}

/// What a [`Node`] holds.
pub enum NodeView {
    String(Seq<char>),
    Integer(i64),
    Boolean(bool),
    Array(Seq<NodeView>),
    Table(Seq<(Seq<char>, NodeView)>),
    Other(toml::Value),
}

/// What `n` holds.
pub open spec fn node_view(n: Node) -> NodeView
    decreases n,
{
    match n {
        Node::String(s) => NodeView::String(s@),
        Node::Integer(i) => NodeView::Integer(i),
        Node::Boolean(b) => NodeView::Boolean(b),
        Node::Array(items) => NodeView::Array(
            Seq::new(
                items@.len(),
                |i: int|
                    if 0 <= i < items@.len() {
                        node_view(items@[i])
                    } else {
                        NodeView::Boolean(false)
                    },
            ),
        ),
        Node::Table(entries) => NodeView::Table(
            Seq::new(
                entries@.len(),
                |i: int|
                    if 0 <= i < entries@.len() {
                        (entries@[i].0@, node_view(entries@[i].1))
                    } else {
                        (Seq::empty(), NodeView::Boolean(false))
                    },
            ),
        ),
        Node::Other(v) => NodeView::Other(v),
    }
}

impl View for Node {
    type V = NodeView;

    open spec fn view(&self) -> NodeView {
        node_view(*self)
    }
}

/// The value of the first entry of `entries` at or behind index `i` whose key
/// is `key`.
pub open spec fn lookup(entries: Seq<(Seq<char>, NodeView)>, key: Seq<char>, i: int) -> Option<
    NodeView,
>
    decreases entries.len() - i,
{
    if i < 0 || i >= entries.len() {
        None
    } else if entries[i].0 == key {
        Some(entries[i].1)
    } else {
        lookup(entries, key, i + 1)
    }
}

/// The entries of `entries` from index `i` on whose key is not `key`, in
/// order.
pub open spec fn others(entries: Seq<(Seq<char>, NodeView)>, key: Seq<char>, i: int) -> Seq<
    (Seq<char>, NodeView),
>
    decreases entries.len() - i,
{
    if i < 0 || i >= entries.len() {
        Seq::empty()
    } else if entries[i].0 == key {
        others(entries, key, i + 1)
    } else {
        seq![entries[i]] + others(entries, key, i + 1)
    }
}

/// Whether `a` stands before `b` in the order of texts: character by
/// character, by the number of the first character in which they differ,
/// and a text before every longer text that starts with it.
pub open spec fn text_lt(a: Seq<char>, b: Seq<char>) -> bool
    decreases a.len(),
{
    if b.len() == 0 {
        false
    } else if a.len() == 0 {
        true
    } else if a[0] != b[0] {
        (a[0] as u32) < (b[0] as u32)
    } else {
        text_lt(a.skip(1), b.skip(1))
    }
}

/// No text stands before itself.
pub proof fn lemma_text_lt_irreflexive(a: Seq<char>)
    ensures
        !text_lt(a, a),
    decreases a.len(),
{
    if a.len() > 0 {
        lemma_text_lt_irreflexive(a.skip(1));
    }
}

/// Whether the keys of `entries` stand in order, each before all that
/// follow it: no key occurs twice.
pub open spec fn keys_in_order(entries: Seq<(Seq<char>, NodeView)>) -> bool {
    forall|i: int, j: int|
        0 <= i < j < entries.len() ==> text_lt(#[trigger] entries[i].0, #[trigger] entries[j].0)
}

/// In a table whose keys stand in order, the entry of a key is found by
/// its key alone.
pub proof fn lemma_lookup_unique(entries: Seq<(Seq<char>, NodeView)>, key: Seq<char>, i: int, j: int)
    requires
        keys_in_order(entries),
        0 <= i <= j < entries.len(),
        entries[j].0 == key,
    ensures
        lookup(entries, key, i) == Some(entries[j].1),
    decreases j - i,
{
    if i < j {
        if entries[i].0 == key {
            lemma_text_lt_irreflexive(key);
            assert(text_lt(entries[i].0, entries[j].0));
        }
        lemma_lookup_unique(entries, key, i + 1, j);
    }
}

/// What is left of a table without a key comes from the table, in the
/// table's order.
pub proof fn lemma_others_in_order(entries: Seq<(Seq<char>, NodeView)>, key: Seq<char>, i: int)
    requires
        0 <= i,
        keys_in_order(entries),
    ensures
        keys_in_order(others(entries, key, i)),
        forall|m: int|
            0 <= m < others(entries, key, i).len() ==> exists|j: int|
                i <= j < entries.len() && entries[j] == #[trigger] others(entries, key, i)[m],
    decreases entries.len() - i,
{
    if i < entries.len() {
        lemma_others_in_order(entries, key, i + 1);
        let rest = others(entries, key, i + 1);
        let all = others(entries, key, i);
        if entries[i].0 != key {
            assert(all =~= seq![entries[i]] + rest);
            assert forall|m: int| 0 <= m < all.len() implies exists|j: int|
                i <= j < entries.len() && entries[j] == #[trigger] all[m] by {
                if m == 0 {
                    assert(entries[i] == all[0]);
                } else {
                    assert(all[m] == rest[m - 1]);
                    let j = choose|j: int| i + 1 <= j < entries.len() && entries[j] == rest[m - 1];
                    assert(entries[j] == all[m]);
                }
            }
            assert forall|m: int, n: int| 0 <= m < n < all.len() implies text_lt(
                #[trigger] all[m].0,
                #[trigger] all[n].0,
            ) by {
                assert(all[n] == rest[n - 1]);
                if m == 0 {
                    let j = choose|j: int| i + 1 <= j < entries.len() && entries[j] == rest[n - 1];
                    assert(text_lt(entries[i].0, entries[j].0));
                } else {
                    assert(all[m] == rest[m - 1]);
                    assert(text_lt(rest[m - 1].0, rest[n - 1].0));
                }
            }
        } else {
            assert forall|m: int| 0 <= m < all.len() implies exists|j: int|
                i <= j < entries.len() && entries[j] == #[trigger] all[m] by {
                let j = choose|j: int| i + 1 <= j < entries.len() && entries[j] == rest[m];
                assert(entries[j] == all[m]);
            }
        }
    }
}

impl NodeView {
    /// Whether `self` is a value as the parser makes them: the keys of every
    /// table in it stand in order, so that none occurs twice.
    pub open spec fn wf(self) -> bool
        decreases self,
    {
        match self {
            NodeView::Table(entries) => keys_in_order(entries) && forall|i: int|
                0 <= i < entries.len() ==> (#[trigger] entries[i]).1.wf(),
            NodeView::Array(items) => forall|i: int| 0 <= i < items.len() ==> (#[trigger] items[i]).wf(),
            _ => true,
        }
    }

    /// The value under `key`, where `self` is a table that has such an entry.
    pub open spec fn get(self, key: Seq<char>) -> Option<NodeView> {
        match self {
            NodeView::Table(entries) => lookup(entries, key, 0),
            _ => None,
        }
    }

    /// The value under `second` in the table under `first`.
    pub open spec fn get_in(self, first: Seq<char>, second: Seq<char>) -> Option<NodeView> {
        match self.get(first) {
            Some(inner) => inner.get(second),
            None => None,
        }
    }

    /// `self` without its entries under `key`, where it is a table; `self`
    /// itself where it is not.
    pub open spec fn without(self, key: Seq<char>) -> NodeView {
        match self {
            NodeView::Table(entries) => NodeView::Table(others(entries, key, 0)),
            _ => self,
        }
    }

    /// Whether `self` is a table without entries.
    pub open spec fn is_empty_table(self) -> bool {
        self matches NodeView::Table(entries) && entries.len() == 0
    }

    /// The strings of `self`, where it is an array of strings.
    pub open spec fn strings(self) -> Option<Seq<Seq<char>>> {
        match self {
            NodeView::Array(items) => if forall|i: int|
                0 <= i < items.len() ==> #[trigger] items[i] is String {
                Some(Seq::new(items.len(), |i: int| items[i]->String_0))
            } else {
                None
            },
            _ => None,
        }
    }
}

impl Node {
    /// What a table's view holds, entry by entry.
    pub proof fn lemma_table_view(self)
        requires
            self is Table,
        ensures
            self@ is Table,
            self@->Table_0.len() == self->Table_0@.len(),
            forall|j: int|
                0 <= j < self->Table_0@.len() ==> (#[trigger] self@->Table_0[j]) == (
                    self->Table_0@[j].0@,
                    self->Table_0@[j].1@,
                ),
    {
        let entries = self->Table_0;
        let view = Seq::new(
            entries@.len(),
            |i: int|
                if 0 <= i < entries@.len() {
                    (entries@[i].0@, node_view(entries@[i].1))
                } else {
                    (Seq::empty(), NodeView::Boolean(false))
                },
        );
        assert(self@->Table_0 =~= view);
    }

    /// What an array's view holds, item by item.
    pub proof fn lemma_array_view(self)
        requires
            self is Array,
        ensures
            self@ is Array,
            self@->Array_0.len() == self->Array_0@.len(),
            forall|j: int|
                0 <= j < self->Array_0@.len() ==> (#[trigger] self@->Array_0[j])
                    == self->Array_0@[j]@,
    {
        let items = self->Array_0;
        let view = Seq::new(
            items@.len(),
            |i: int|
                if 0 <= i < items@.len() {
                    node_view(items@[i])
                } else {
                    NodeView::Boolean(false)
                },
        );
        assert(self@->Array_0 =~= view);
    }
}

/// The document that `text` is written as, where it is one: what
/// `toml::Value`'s `from_str` makes of it.
pub uninterp spec fn parsed(text: Seq<char>) -> Option<toml::Value>;

/// What a value of the parser holds, as this crate reads it.
pub uninterp spec fn imported(v: toml::Value) -> NodeView;

/// What is found in a value in which every table has its keys in order is
/// such a value.
pub proof fn lemma_found_is_wf(table: NodeView, key: Seq<char>)
    requires
        table.wf(),
    ensures
        table.get(key) matches Some(v) ==> v.wf(),
{
    if let NodeView::Table(entries) = table {
        lemma_lookup_is_entry(entries, key, 0);
    }
}

/// What a lookup finds is the value of an entry.
pub proof fn lemma_lookup_is_entry(entries: Seq<(Seq<char>, NodeView)>, key: Seq<char>, i: int)
    requires
        0 <= i,
    ensures
        lookup(entries, key, i) matches Some(v) ==> exists|j: int|
            i <= j < entries.len() && (#[trigger] entries[j]).1 == v,
    decreases entries.len() - i,
{
    if i < entries.len() {
        if entries[i].0 == key {
            assert(entries[i].1 == lookup(entries, key, i)->Some_0);
        } else {
            lemma_lookup_is_entry(entries, key, i + 1);
            if lookup(entries, key, i) is Some {
                let v = lookup(entries, key, i)->Some_0;
                let j = choose|j: int| i + 1 <= j < entries.len() && (#[trigger] entries[j]).1 == v;
                assert(entries[j].1 == v);
            }
        }
    }
}

/// What is left of a value without a key has its keys in order where the
/// value has.
pub proof fn lemma_without_is_wf(table: NodeView, key: Seq<char>)
    requires
        table.wf(),
    ensures
        table.without(key).wf(),
{
    if let NodeView::Table(entries) = table {
        lemma_others_in_order(entries, key, 0);
        let left = others(entries, key, 0);
        assert forall|m: int| 0 <= m < left.len() implies (#[trigger] left[m]).1.wf() by {
            let j = choose|j: int| 0 <= j < entries.len() && entries[j] == left[m];
            assert(entries[j].1.wf());
        }
    }
}

/// The value of the parser that holds what `n` holds.
pub uninterp spec fn exported(n: NodeView) -> toml::Value;

/// The text that `toml::to_string` writes for a value, where it can write it.
pub uninterp spec fn rendered(v: toml::Value) -> Option<Seq<char>>;

/// The text that a value is written as, where it can be written.
pub open spec fn document_text(n: NodeView) -> Option<Seq<char>> {
    rendered(exported(n))
}

/// `toml::Value`'s `from_str`: reads `text` as a document. Whether it
/// succeeds, and with what, depends on `text` alone.
#[verifier::external_body]
fn parse_outside(text: &str) -> (r: Result<toml::Value, toml::de::Error>)
    ensures
        match r {
            Ok(v) => parsed(text@) == Some(v),
            Err(_) => parsed(text@) is None,
        },
{
    text.parse::<toml::Value>()
}

/// The message of `toml::de::Error`, as its `Display` writes it.
#[verifier::external_body]
fn parse_error_message(e: &toml::de::Error) -> String {
    e.to_string()
}

/// Turns a value of the parser into a [`Node`], variant by variant: strings,
/// integers, booleans, arrays and tables are taken apart, the rest is kept as
/// it is. The result depends on the value alone. The parser keeps a table
/// as a map that is ordered by its keys and hands the entries out in that
/// order, so the keys of every table of the result stand in order.
#[verifier::external_body]
fn import(v: &toml::Value) -> (r: Node)
    ensures
        r@ == imported(*v),
        r@.wf(),
{
    match v {
        toml::Value::String(s) => Node::String(s.clone()),
        toml::Value::Integer(i) => Node::Integer(*i),
        toml::Value::Boolean(b) => Node::Boolean(*b),
        toml::Value::Array(a) => Node::Array(a.iter().map(import).collect()),
        toml::Value::Table(t) => Node::Table(
            t.iter().map(|(k, v)| (k.clone(), import(v))).collect(),
        ),
        other => Node::Other(other.clone()),
    }
}

/// Turns a [`Node`] into a value of the parser, variant by variant. The
/// result depends on what the node holds alone.
#[verifier::external_body]
fn export(n: &Node) -> (r: toml::Value)
    ensures
        r == exported(n@),
{
    match n {
        Node::String(s) => toml::Value::String(s.clone()),
        Node::Integer(i) => toml::Value::Integer(*i),
        Node::Boolean(b) => toml::Value::Boolean(*b),
        Node::Array(a) => toml::Value::Array(a.iter().map(export).collect()),
        Node::Table(t) => toml::Value::Table(
            t.iter().map(|(k, v)| (k.clone(), export(v))).collect(),
        ),
        Node::Other(v) => v.clone(),
    }
}

/// `toml::to_string`: writes a value as text, or fails where the format
/// cannot express it. The outcome depends on the value alone.
#[verifier::external_body]
fn render_outside(v: &toml::Value) -> (r: Option<String>)
    ensures
        match r {
            Some(s) => rendered(*v) == Some(s@),
            None => rendered(*v) is None,
        },
{
    toml::to_string(v).ok()
}

/// Why a text is no document.
#[derive(Debug)]
pub struct ParseError {
    /// What the parser says of the text.
    pub message: String,
}

/// `toml::Value`'s `clone`: a value equal to the one it is called on.
#[verifier::external_body]
fn clone_outside(v: &toml::Value) -> (r: toml::Value)
    ensures
        r == *v,
{
    v.clone()
}

impl Node {
    /// Reads `text` as a document. In what is read the keys of every table
    /// stand in order.
    pub fn parse(text: &str) -> (r: Result<Node, ParseError>)
        ensures
            match parsed(text@) {
                Some(raw) => r is Ok && r->Ok_0@ == imported(raw),
                None => r is Err,
            },
            r matches Ok(node) ==> node@.wf(),
    {
        match parse_outside(text) {
            Ok(raw) => Ok(import(&raw)),
            Err(e) => Err(ParseError { message: parse_error_message(&e) }),
        }
    }

    /// Writes the value as a document, where the format can express it.
    /// The keys of every table in it must stand in order: a table that
    /// holds a key twice is none.
    pub fn render(&self) -> (r: Option<String>)
        requires
            self@.wf(),
        ensures
            match r {
                Some(s) => document_text(self@) == Some(s@),
                None => document_text(self@) is None,
            },
    {
        let raw = export(self);
        render_outside(&raw)
    }

    /// The value under `key`, where `self` is a table that has such an entry.
    pub fn get(&self, key: &str) -> (r: Option<&Node>)
        ensures
            match r {
                Some(v) => self@.get(key@) == Some(v@),
                None => self@.get(key@) is None,
            },
            self@.wf() ==> (r matches Some(v) ==> v@.wf()),
    {
        proof {
            if self@.wf() {
                lemma_found_is_wf(self@, key@);
            }
        }
        match self {
            Node::Table(entries) => {
                let mut i: usize = 0;
                proof {
                    self.lemma_table_view();
                }
                while i < entries.len()
                    invariant
                        i <= entries.len(),
                        self@ is Table,
                        self@->Table_0.len() == entries.len(),
                        forall|j: int|
                            0 <= j < entries.len() ==> (#[trigger] self@->Table_0[j]) == (
                                entries@[j].0@,
                                entries@[j].1@,
                            ),
                        lookup(self@->Table_0, key@, i as int) == self@.get(key@),
                    decreases entries.len() - i,
                {
                    if same_text(entries[i].0.as_str(), key) {
                        return Some(&entries[i].1);
                    }
                    i += 1;
                }
                None
            },
            _ => None,
        }
    }

    /// The value under `second` in the table under `first`.
    pub fn get_in(&self, first: &str, second: &str) -> (r: Option<&Node>)
        ensures
            match r {
                Some(v) => self@.get_in(first@, second@) == Some(v@),
                None => self@.get_in(first@, second@) is None,
            },
            self@.wf() ==> (r matches Some(v) ==> v@.wf()),
    {
        match self.get(first) {
            Some(inner) => inner.get(second),
            None => None,
        }
    }

    /// The strings of the value, where it is an array of strings.
    pub fn strings(&self) -> (r: Option<Vec<String>>)
        ensures
            match r {
                Some(texts) => self@.strings() == Some(views(texts@)),
                None => self@.strings() is None,
            },
    {
        match self {
            Node::Array(items) => {
                proof {
                    self.lemma_array_view();
                }
                let mut texts: Vec<String> = Vec::new();
                let mut i: usize = 0;
                while i < items.len()
                    invariant
                        i <= items.len(),
                        self@ is Array,
                        self@->Array_0.len() == items.len(),
                        forall|j: int|
                            0 <= j < items.len() ==> (#[trigger] self@->Array_0[j])
                                == items@[j]@,
                        texts.len() == i,
                        forall|j: int|
                            0 <= j < i ==> (#[trigger] self@->Array_0[j]) == NodeView::String(
                                texts@[j]@,
                            ),
                    decreases items.len() - i,
                {
                    match items[i].as_str() {
                        Some(text) => {
                            texts.push(text.to_owned());
                        },
                        None => {
                            assert(!(self@->Array_0[i as int] is String));
                            return None;
                        },
                    }
                    i += 1;
                }
                assert(self@.strings()->Some_0 =~= views(texts@));
                Some(texts)
            },
            _ => None,
        }
    }

    /// The text of the value, where it is a string.
    pub fn as_str(&self) -> (r: Option<&str>)
        ensures
            match r {
                Some(s) => self@ == NodeView::String(s@),
                None => !(self@ is String),
            },
    {
        match self {
            Node::String(s) => Some(s.as_str()),
            _ => None,
        }
    }

    /// The items of the value, where it is an array.
    pub fn as_array(&self) -> (r: Option<&Vec<Node>>)
        ensures
            match r {
                Some(items) => *self == Node::Array(*items),
                None => !(self@ is Array),
            },
    {
        match self {
            Node::Array(items) => Some(items),
            _ => None,
        }
    }

    /// Whether the value is a table without entries.
    pub fn is_empty_table(&self) -> (r: bool)
        ensures
            r == self@.is_empty_table(),
    {
        match self {
            Node::Table(entries) => {
                proof {
                    self.lemma_table_view();
                }
                entries.len() == 0
            },
            _ => false,
        }
    }

    /// A copy of the value without its entries under `key`, where it is a
    /// table; a plain copy where it is not.
    pub fn without(&self, key: &str) -> (r: Node)
        ensures
            r@ == self@.without(key@),
            self@.wf() ==> r@.wf(),
    {
        proof {
            if self@.wf() {
                lemma_without_is_wf(self@, key@);
            }
        }
        match self {
            Node::Table(entries) => {
                let mut kept: Vec<(String, Node)> = Vec::new();
                let mut i: usize = 0;
                proof {
                    self.lemma_table_view();
                }
                let ghost all = self@->Table_0;
                let ghost done: Seq<(Seq<char>, NodeView)> = Seq::empty();
                assert(done + others(all, key@, 0) =~= others(all, key@, 0));
                while i < entries.len()
                    invariant
                        i <= entries.len(),
                        all.len() == entries.len(),
                        forall|j: int|
                            0 <= j < entries.len() ==> (#[trigger] all[j]) == (
                                entries@[j].0@,
                                entries@[j].1@,
                            ),
                        done.len() == kept.len(),
                        forall|j: int|
                            0 <= j < kept.len() ==> (#[trigger] done[j]) == (
                                kept@[j].0@,
                                kept@[j].1@,
                            ),
                        done + others(all, key@, i as int) == others(all, key@, 0),
                    decreases entries.len() - i,
                {
                    if !same_text(entries[i].0.as_str(), key) {
                        let name = entries[i].0.clone();
                        let value = entries[i].1.deep_copy();
                        kept.push((name, value));
                        proof {
                            let next = done.push(all[i as int]);
                            assert(next + others(all, key@, i + 1) =~= done + others(
                                all,
                                key@,
                                i as int,
                            ));
                            done = next;
                        }
                    }
                    i += 1;
                }
                let r = Node::Table(kept);
                assert(r@->Table_0 =~= done);
                assert(done =~= done + others(all, key@, i as int));
                r
            },
            _ => self.deep_copy(),
        }
    }

    /// A copy of the value.
    pub fn deep_copy(&self) -> (r: Node)
        ensures
            r@ == self@,
        decreases self,
    {
        match self {
            Node::String(s) => Node::String(s.clone()),
            Node::Integer(i) => Node::Integer(*i),
            Node::Boolean(b) => Node::Boolean(*b),
            Node::Array(items) => {
                let mut copy: Vec<Node> = Vec::new();
                let mut i: usize = 0;

                while i < items.len()
                    invariant
                        decreases_to!(*self => *items),
                        i <= items.len(),
                        copy.len() == i,
                        forall|j: int| 0 <= j < i ==> copy@[j]@ == items@[j]@,
                    decreases items.len() - i,
                {
                    let item = items[i].deep_copy();
                    copy.push(item);
                    i += 1;
                }
                let r = Node::Array(copy);
                assert(r@->Array_0 =~= self@->Array_0);
                r
            },
            Node::Table(entries) => {
                let mut copy: Vec<(String, Node)> = Vec::new();
                let mut i: usize = 0;
                while i < entries.len()
                    invariant
                        decreases_to!(*self => *entries),
                        i <= entries.len(),
                        copy.len() == i,
                        forall|j: int|
                            0 <= j < i ==> copy@[j].0@ == entries@[j].0@ && copy@[j].1@
                                == entries@[j].1@,
                    decreases entries.len() - i,
                {
                    let key = entries[i].0.clone();
                    let value = entries[i].1.deep_copy();
                    copy.push((key, value));
                    i += 1;
                }
                let r = Node::Table(copy);
                assert(r@->Table_0 =~= self@->Table_0);
                r
            },
            Node::Other(v) => Node::Other(clone_outside(v)),
        }
    }
}

} // verus!
