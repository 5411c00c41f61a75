//! The configuration tree: entries (text), arrays and tables, addressed by
//! dotted keys such as `"web.host"` or `"list.0.item"`.
//!
//! Every value has a mathematical model, a [`Node`]; the contracts of the
//! operations below are stated over it.
use vstd::prelude::*;

use vstd::std_specs::cmp::PartialEqSpecImpl;

use vstd::std_specs::convert::FromSpecImpl;
use crate::text::{
    decimal, int_error_message, int_error_text, key_head, key_rest, key_without_first_dot,
    lemma_key_parts_shorter, owned, signed_decimal, spec_parse_int, unsigned_text, IntErrorKind,
};

pub mod array;
pub mod de;
pub mod entry;
pub mod laws;
pub mod table;

pub use self::array::Array;
pub use self::entry::Entry;
pub use self::table::Table;

verus! {

// ---------------------------------------------------------------------------
// The model
// ---------------------------------------------------------------------------

/// The mathematical model of a configuration value.  A table is modelled by
/// its list of (key, value) pairs in storage order; lookups take the first
/// pair with the wanted key.
pub enum Node {
    Entry(Seq<char>),
    Array(Seq<Node>),
    Table(Seq<(Seq<char>, Node)>),
}

/// A configuration value.
#[derive(Debug)]
pub enum Value {
    Entry(Entry),
    Array(Array),
    Table(Table),
}

/// The models of a sequence of values.
pub open spec fn values_view(s: Seq<Value>) -> Seq<Node>
    decreases s,
{
    if s.len() == 0 {
        Seq::empty()
    } else {
        values_view(s.drop_last()).push(s.last().view_node())
    }
}

/// The models of a sequence of (key, value) pairs.
pub open spec fn entries_view(s: Seq<(String, Value)>) -> Seq<(Seq<char>, Node)>
    decreases s,
{
    if s.len() == 0 {
        Seq::empty()
    } else {
        entries_view(s.drop_last()).push((s.last().0@, s.last().1.view_node()))
    }
}

impl Value {
    pub open spec fn view_node(self) -> Node
        decreases self,
    {
        match self {
            Value::Entry(e) => Node::Entry(e.0@),
            Value::Array(a) => Node::Array(a@),
            Value::Table(t) => Node::Table(t@),
        }
    }
}

/// Every value is well formed: each array and table in it keeps its
/// invariant.
pub fn value_wf(v: &Value)
    ensures
        node_wf(v@),
{
    match v {
        Value::Entry(_) => {},
        Value::Array(a) => a.well_formed(),
        Value::Table(t) => t.well_formed(),
    }
}

impl View for Value {
    type V = Node;

    open spec fn view(&self) -> Node {
        self.view_node()
    }
}

pub proof fn lemma_values_view(s: Seq<Value>)
    ensures
        values_view(s) =~= Seq::new(s.len(), |i: int| s[i].view_node()),
    decreases s.len(),
{
    if s.len() > 0 {
        lemma_values_view(s.drop_last());
    }
}

pub proof fn lemma_entries_view(s: Seq<(String, Value)>)
    ensures
        entries_view(s) =~= Seq::new(s.len(), |i: int| (s[i].0@, s[i].1.view_node())),
    decreases s.len(),
{
    if s.len() > 0 {
        lemma_entries_view(s.drop_last());
    }
}

// ---------------------------------------------------------------------------
// Errors
// ---------------------------------------------------------------------------

/// An error of the configuration tree, carrying its message.
#[derive(Debug, Clone, Eq)]
pub struct Error(pub String);

/// Two errors are equal when their messages are.
impl PartialEq for Error {
    fn eq(&self, other: &Self) -> (r: bool) {
        self.0 == other.0
    }
}

impl PartialEqSpecImpl for Error {
    open spec fn obeys_eq_spec() -> bool {
        true
    }

    open spec fn eq_spec(&self, other: &Self) -> bool {
        self.0@ == other.0@
    }
}

impl View for Error {
    type V = Seq<char>;

    open spec fn view(&self) -> Seq<char> {
        self.0@
    }
}

impl Error {
    /// An error with the given message.
    pub fn custom(msg: &str) -> (r: Error)
        ensures
            r@ == msg@,
    {
        Error(owned(msg))
    }

    /// The message, as an owned string.
    pub fn message(&self) -> (r: String)
        ensures
            r@ == self@,
    {
        self.0.clone()
    }
}

/// `missing value for '<key>'`.
pub open spec fn missing_message(key: Seq<char>) -> Seq<char> {
    "missing value for '"@ + key + "'"@
}

pub fn missing_error(key: &str) -> (r: Error)
    ensures
        r@ == missing_message(key@),
{
    let mut s = owned("missing value for '");
    s.append(key);
    s.append("'");
    Error(s)
}

pub fn missing_index_error(index: usize) -> (r: Error)
    ensures
        r@ == missing_message(decimal(index as nat)),
{
    let mut s = owned("missing value for '");
    let d = unsigned_text(index as u128);
    s.append(d.as_str());
    s.append("'");
    Error(s)
}

pub fn int_error(k: IntErrorKind) -> (r: Error)
    ensures
        r@ == int_error_message(k),
{
    Error(int_error_text(k))
}

// ---------------------------------------------------------------------------
// Tables as lists of pairs
// ---------------------------------------------------------------------------

/// `i` is the first position of `es` that holds key `k`.
pub open spec fn is_first_key(es: Seq<(Seq<char>, Node)>, k: Seq<char>, i: int) -> bool {
    &&& 0 <= i < es.len()
    &&& es[i].0 == k
    &&& forall|j: int| 0 <= j < i ==> es[j].0 != k
}

/// The first position of `es` that holds key `k`, if any.
pub open spec fn find_key(es: Seq<(Seq<char>, Node)>, k: Seq<char>) -> Option<int> {
    if exists|i: int| is_first_key(es, k, i) {
        Some(choose|i: int| is_first_key(es, k, i))
    } else {
        None
    }
}

/// What a table holds under key `k`.
pub open spec fn table_lookup(es: Seq<(Seq<char>, Node)>, k: Seq<char>) -> Option<Node> {
    match find_key(es, k) {
        Some(i) => Some(es[i].1),
        None => None,
    }
}

/// Puts `v` under key `k`: replaces what the key held, or adds the pair at
/// the end.
pub open spec fn table_insert(es: Seq<(Seq<char>, Node)>, k: Seq<char>, v: Node) -> Seq<
    (Seq<char>, Node),
> {
    match find_key(es, k) {
        Some(i) => es.update(i, (k, v)),
        None => es.push((k, v)),
    }
}

/// No key occurs twice among the pairs of a table.
pub open spec fn keys_distinct(es: Seq<(Seq<char>, Node)>) -> bool {
    forall|i: int, j: int| 0 <= i < j < es.len() ==> es[i].0 != es[j].0
}

/// A well-formed tree: no table in it holds a key twice.  This is what
/// makes a table's pairs a map from keys to values; every operation keeps
/// it.
pub open spec fn node_wf(n: Node) -> bool
    decreases n,
{
    match n {
        Node::Entry(_) => true,
        Node::Array(items) => forall|i: int| 0 <= i < items.len() ==> node_wf(#[trigger] items[i]),
        Node::Table(es) => keys_distinct(es) && forall|i: int|
            0 <= i < es.len() ==> node_wf(#[trigger] es[i].1),
    }
}

pub proof fn lemma_first_key_unique(es: Seq<(Seq<char>, Node)>, k: Seq<char>, i: int, j: int)
    requires
        is_first_key(es, k, i),
        is_first_key(es, k, j),
    ensures
        i == j,
{
}

/// A key that occurs in a list of pairs has a first occurrence.
pub proof fn lemma_first_key_exists(es: Seq<(Seq<char>, Node)>, k: Seq<char>, j: int)
    requires
        0 <= j < es.len(),
        es[j].0 == k,
    ensures
        find_key(es, k) is Some,
        find_key(es, k) matches Some(i) ==> is_first_key(es, k, i) && i <= j,
    decreases j,
{
    if exists|j2: int| 0 <= j2 < j && es[j2].0 == k {
        let j2 = choose|j2: int| 0 <= j2 < j && es[j2].0 == k;
        lemma_first_key_exists(es, k, j2);
    } else {
        assert(is_first_key(es, k, j));
    }
    let i = choose|i: int| is_first_key(es, k, i);
    if exists|i: int| is_first_key(es, k, i) {
        if i > j {
            assert(es[j].0 != k);
        }
    }
}

/// `find_key` fully describes where a key is.
pub proof fn lemma_find_key(es: Seq<(Seq<char>, Node)>, k: Seq<char>)
    ensures
        find_key(es, k) matches Some(i) ==> is_first_key(es, k, i),
        find_key(es, k) is None ==> forall|j: int| 0 <= j < es.len() ==> es[j].0 != k,
{
    if find_key(es, k) is None {
        assert forall|j: int| 0 <= j < es.len() implies es[j].0 != k by {
            if es[j].0 == k {
                lemma_first_key_exists(es, k, j);
            }
        }
    }
}

/// Lists of pairs with the same keys in the same places find every key in
/// the same place.
pub proof fn lemma_find_key_same_keys(
    es1: Seq<(Seq<char>, Node)>,
    es2: Seq<(Seq<char>, Node)>,
    k: Seq<char>,
)
    requires
        es1.len() == es2.len(),
        forall|j: int| 0 <= j < es1.len() ==> es1[j].0 == es2[j].0,
    ensures
        find_key(es1, k) == find_key(es2, k),
{
    assert(forall|j: int| 0 <= j < es1.len() ==> #[trigger] es2[j].0 == es1[j].0);
    lemma_find_key(es1, k);
    lemma_find_key(es2, k);
    if let Some(i) = find_key(es1, k) {
        assert(is_first_key(es2, k, i));
        lemma_first_key_exists(es2, k, i);
        let i2 = find_key(es2, k)->0;
        lemma_first_key_unique(es2, k, i, i2);
    } else if let Some(i) = find_key(es2, k) {
        assert(es1[i].0 == k);
    }
}

/// Where a key is found after a pair is added at the end.
pub proof fn lemma_find_key_push(
    es: Seq<(Seq<char>, Node)>,
    k: Seq<char>,
    v: Node,
    k2: Seq<char>,
)
    ensures
        find_key(es.push((k, v)), k2) == (if find_key(es, k2) is Some {
            find_key(es, k2)
        } else if k2 == k {
            Some(es.len() as int)
        } else {
            None::<int>
        }),
{
    let es2 = es.push((k, v));
    lemma_find_key(es, k2);
    lemma_find_key(es2, k2);
    if let Some(i) = find_key(es, k2) {
        assert(is_first_key(es2, k2, i));
        lemma_first_key_exists(es2, k2, i);
        lemma_first_key_unique(es2, k2, i, find_key(es2, k2)->0);
    } else if k2 == k {
        assert(is_first_key(es2, k2, es.len() as int));
        lemma_first_key_exists(es2, k2, es.len() as int);
        lemma_first_key_unique(es2, k2, es.len() as int, find_key(es2, k2)->0);
    } else {
        if let Some(i) = find_key(es2, k2) {
            assert(es2[i].0 == k2);
            if i < es.len() {
                assert(es[i].0 == k2);
            }
        }
    }
}

/// After `table_insert`, the key is found at the pair that holds the new
/// value.
pub proof fn lemma_find_key_insert(es: Seq<(Seq<char>, Node)>, k: Seq<char>, v: Node)
    ensures
        find_key(table_insert(es, k, v), k) matches Some(i) && 0 <= i < table_insert(
            es,
            k,
            v,
        ).len() && table_insert(es, k, v)[i] == (k, v),
{
    lemma_find_key(es, k);
    if let Some(i) = find_key(es, k) {
        let es2 = es.update(i, (k, v));
        lemma_find_key_same_keys(es, es2, k);
    } else {
        lemma_find_key_push(es, k, v, k);
    }
}

// ---------------------------------------------------------------------------
// Reading by key
// ---------------------------------------------------------------------------

/// Which public operation performs a lookup; it decides the message given
/// when the lookup runs into an entry.
#[derive(Clone, Copy, Debug, PartialEq, Eq)]
pub enum Lookup {
    Get,
    GetValue,
}

pub open spec fn lookup_entry_message(op: Lookup) -> Seq<char> {
    match op {
        Lookup::Get => "cannot call `get` on entry"@,
        Lookup::GetValue => "cannot call `get_value` on entry"@,
    }
}

/// The index named by a key segment, as `str::parse::<usize>` reads it.
pub open spec fn parse_index(seg: Seq<char>) -> Result<int, IntErrorKind> {
    spec_parse_int(seg, false, usize::MAX as int, 0)
}

/// The value found by following a dotted key from `n`, or the message of
/// the error met on the way.  Each segment names a key of a table or an
/// index of an array.
pub open spec fn node_get(n: Node, key: Seq<char>, op: Lookup) -> Result<Node, Seq<char>>
    decreases key.len(),
{
    match n {
        Node::Entry(_) => Err(lookup_entry_message(op)),
        Node::Array(items) => match parse_index(key_head(key)) {
            Err(e) => Err(int_error_message(e)),
            Ok(idx) => if 0 <= idx < items.len() {
                match key_rest(key) {
                    None => Ok(items[idx]),
                    Some(r) => {
                        proof {
                            lemma_key_parts_shorter(key);
                        }
                        node_get(items[idx], r, op)
                    },
                }
            } else {
                Err(missing_message(decimal(idx as nat)))
            },
        },
        Node::Table(es) => match find_key(es, key_head(key)) {
            None => Err(missing_message(key)),
            Some(i) => match key_rest(key) {
                None => Ok(es[i].1),
                Some(r) => {
                    proof {
                        lemma_key_parts_shorter(key);
                    }
                    node_get(es[i].1, r, op)
                },
            },
        },
    }
}

// ---------------------------------------------------------------------------
// Writing by key
// ---------------------------------------------------------------------------

/// The container made for a missing intermediate key: an array when the
/// next segment reads as an index, a table otherwise.
pub open spec fn fresh_container(next: Seq<char>) -> Node {
    if parse_index(next) is Ok {
        Node::Array(Seq::empty())
    } else {
        Node::Table(Seq::empty())
    }
}

pub open spec fn insert_into_entry_message() -> Seq<char> {
    "cannot insert into entry"@
}

pub open spec fn insert_after_index_message() -> Seq<char> {
    "cannot insert item after index"@
}

/// The tree after storing `v` under a dotted key with `set`.  `v` is the
/// outcome of turning the stored value into a tree: when that failed, the
/// error shows only once the place where it would be stored is reached.
/// At an array a final segment inserts at that index (shifting what
/// follows); an index past the end is refused.  A missing intermediate key
/// gets a fresh container.
pub open spec fn node_set(n: Node, key: Seq<char>, v: Result<Node, Seq<char>>) -> Result<
    Node,
    Seq<char>,
>
    decreases key.len(),
{
    match n {
        Node::Entry(_) => Err("cannot call `set` on entry variant"@),
        Node::Array(items) => match parse_index(key_head(key)) {
            Err(e) => Err(int_error_message(e)),
            Ok(idx) => if idx > items.len() {
                Err(insert_after_index_message())
            } else {
                match key_rest(key) {
                    None => match v {
                        Ok(x) => Ok(Node::Array(items.insert(idx, x))),
                        Err(e) => Err(e),
                    },
                    Some(r) => {
                        proof {
                            lemma_key_parts_shorter(key);
                        }
                        if idx < items.len() {
                            match items[idx] {
                                Node::Entry(_) => Err(insert_into_entry_message()),
                                _ => match node_set(items[idx], r, v) {
                                    Ok(c) => Ok(Node::Array(items.update(idx, c))),
                                    Err(e) => Err(e),
                                },
                            }
                        } else {
                            match node_set(fresh_container(key_head(r)), r, v) {
                                Ok(c) => Ok(Node::Array(items.push(c))),
                                Err(e) => Err(e),
                            }
                        }
                    },
                }
            },
        },
        Node::Table(es) => match key_rest(key) {
            None => match v {
                Ok(x) => Ok(Node::Table(table_insert(es, key_head(key), x))),
                Err(e) => Err(e),
            },
            Some(r) => {
                proof {
                    lemma_key_parts_shorter(key);
                }
                match find_key(es, key_head(key)) {
                    Some(i) => match es[i].1 {
                        Node::Entry(_) => Err(insert_into_entry_message()),
                        _ => match node_set(es[i].1, r, v) {
                            Ok(c) => Ok(Node::Table(es.update(i, (es[i].0, c)))),
                            Err(e) => Err(e),
                        },
                    },
                    None => match node_set(fresh_container(key_head(r)), r, v) {
                        Ok(c) => Ok(Node::Table(es.push((key_head(key), c)))),
                        Err(e) => Err(e),
                    },
                }
            },
        },
    }
}

/// The tree after storing `v` under a dotted key with `set_value`.  Like
/// `set`, except below an existing container only the next segment of the
/// key is used, and a fresh container receives the rest of the key with its
/// first dot taken out.
pub open spec fn node_set_value(n: Node, key: Seq<char>, v: Node) -> Result<Node, Seq<char>>
    decreases key.len(),
{
    match n {
        Node::Entry(_) => Err("cannot call `set_value` on entry variant"@),
        Node::Array(items) => match parse_index(key_head(key)) {
            Err(e) => Err(int_error_message(e)),
            Ok(idx) => if idx > items.len() {
                Err(insert_after_index_message())
            } else {
                match key_rest(key) {
                    None => Ok(Node::Array(items.insert(idx, v))),
                    Some(r) => {
                        proof {
                            lemma_key_parts_shorter(key);
                            lemma_key_parts_shorter(r);
                        }
                        if idx < items.len() {
                            match node_set_value(items[idx], key_head(r), v) {
                                Ok(c) => Ok(Node::Array(items.update(idx, c))),
                                Err(e) => Err(e),
                            }
                        } else {
                            match node_set_value(
                                fresh_container(key_head(r)),
                                key_without_first_dot(r),
                                v,
                            ) {
                                Ok(c) => Ok(Node::Array(items.push(c))),
                                Err(e) => Err(e),
                            }
                        }
                    },
                }
            },
        },
        Node::Table(es) => match key_rest(key) {
            None => Ok(Node::Table(table_insert(es, key_head(key), v))),
            Some(r) => {
                proof {
                    lemma_key_parts_shorter(key);
                    lemma_key_parts_shorter(r);
                }
                match find_key(es, key_head(key)) {
                    Some(i) => match node_set_value(es[i].1, key_head(r), v) {
                        Ok(c) => Ok(Node::Table(es.update(i, (es[i].0, c)))),
                        Err(e) => Err(e),
                    },
                    None => match node_set_value(
                        fresh_container(key_head(r)),
                        key_without_first_dot(r),
                        v,
                    ) {
                        Ok(c) => Ok(Node::Table(es.push((key_head(key), c)))),
                        Err(e) => Err(e),
                    },
                }
            },
        },
    }
}

/// The model of the outcome of turning a stored value into a tree.
pub open spec fn outcome(v: Result<Value, Error>) -> Result<Node, Seq<char>> {
    match v {
        Ok(x) => Ok(x@),
        Err(e) => Err(e@),
    }
}

/// `set`, except that nothing changes when the key already leads to a value.
pub open spec fn node_set_default(n: Node, key: Seq<char>, v: Result<Node, Seq<char>>) -> Result<
    Node,
    Seq<char>,
> {
    if node_get(n, key, Lookup::GetValue) is Ok {
        Ok(n)
    } else {
        node_set(n, key, v)
    }
}

/// `set_value`, except that nothing changes when the key already leads to a
/// value.
pub open spec fn node_set_value_default(n: Node, key: Seq<char>, v: Node) -> Result<
    Node,
    Seq<char>,
> {
    if node_get(n, key, Lookup::GetValue) is Ok {
        Ok(n)
    } else {
        node_set_value(n, key, v)
    }
}

/// A write that was to give `outcome` did so: on success the tree became
/// the new tree, on failure it was left as it was and the error carries the
/// message.
pub open spec fn applied(
    before: Node,
    after: Node,
    outcome: Result<Node, Seq<char>>,
    r: Result<(), Error>,
) -> bool {
    match outcome {
        Ok(n) => r is Ok && after == n,
        Err(m) => after == before && (r matches Err(e) && e@ == m),
    }
}

// ---------------------------------------------------------------------------
// Merging
// ---------------------------------------------------------------------------

/// The outcome of a merge: the resulting tree (which, after an error, holds
/// what had been merged before it) and the error message, if any.
pub type Merged<T> = (T, Option<Seq<char>>);

/// Merges `b` into `a`.  Entries take `b`'s text, or keep `a`'s when
/// `keep` is set; arrays are merged position by position, `b`'s extra
/// items appended; tables key by key in `b`'s order, `b`'s new keys
/// appended.  Values of different kinds do not merge; the first such
/// conflict stops the merge.
pub open spec fn merge_node(a: Node, b: Node, keep: bool) -> Merged<Node>
    decreases b, 0nat,
{
    match a {
        Node::Entry(x) => match b {
            Node::Entry(y) => (
                if keep {
                    Node::Entry(x)
                } else {
                    Node::Entry(y)
                },
                None,
            ),
            Node::Array(_) => (a, Some("cannot merge array with entry"@)),
            Node::Table(_) => (a, Some("cannot merge table with entry"@)),
        },
        Node::Array(xs) => match b {
            Node::Entry(_) => (a, Some("cannot merge entry with array"@)),
            Node::Array(ys) => {
                let m = merge_items(xs, ys, ys.len(), keep);
                (Node::Array(m.0), m.1)
            },
            Node::Table(_) => (a, Some("cannot merge table with array"@)),
        },
        Node::Table(xs) => match b {
            Node::Entry(_) => (a, Some("cannot merge entry with table"@)),
            Node::Array(_) => (a, Some("cannot merge array with table"@)),
            Node::Table(ys) => {
                let m = merge_entries(xs, ys, ys.len(), keep);
                (Node::Table(m.0), m.1)
            },
        },
    }
}

/// Array items after merging the first `n` items of `ys` into `xs`.
pub open spec fn merge_items(xs: Seq<Node>, ys: Seq<Node>, n: nat, keep: bool) -> Merged<
    Seq<Node>,
>
    decreases ys, n,
{
    if n == 0 || n > ys.len() {
        (xs, None)
    } else {
        let prev = merge_items(xs, ys, (n - 1) as nat, keep);
        if prev.1 is Some {
            prev
        } else if n - 1 < prev.0.len() {
            let m = merge_node(prev.0[n - 1], ys[n - 1], keep);
            (prev.0.update(n - 1, m.0), m.1)
        } else {
            (prev.0.push(ys[n - 1]), None)
        }
    }
}

/// Table pairs after merging the first `n` pairs of `ys` into `xs`.
pub open spec fn merge_entries(
    xs: Seq<(Seq<char>, Node)>,
    ys: Seq<(Seq<char>, Node)>,
    n: nat,
    keep: bool,
) -> Merged<Seq<(Seq<char>, Node)>>
    decreases ys, n,
{
    if n == 0 || n > ys.len() {
        (xs, None)
    } else {
        let prev = merge_entries(xs, ys, (n - 1) as nat, keep);
        if prev.1 is Some {
            prev
        } else {
            match find_key(prev.0, ys[n - 1].0) {
                Some(i) => {
                    let m = merge_node(prev.0[i].1, ys[n - 1].1, keep);
                    (prev.0.update(i, (prev.0[i].0, m.0)), m.1)
                },
                None => (prev.0.push(ys[n - 1]), None),
            }
        }
    }
}

// ---------------------------------------------------------------------------
// Operations on values
// ---------------------------------------------------------------------------

impl Value {
    /// An empty entry.
    pub fn entry() -> (r: Value)
        ensures
            r@ == Node::Entry(Seq::empty()),
    {
        Value::Entry(Entry::new())
    }

    /// An empty table.
    pub fn table() -> (r: Value)
        ensures
            r@ == Node::Table(Seq::empty()),
    {
        Value::Table(Table::new())
    }

    /// An empty array.
    pub fn array() -> (r: Value)
        ensures
            r@ == Node::Array(Seq::empty()),
    {
        Value::Array(Array::new())
    }

    /// Follows a dotted key from this value; `op` names the operation that
    /// asks, for the message given when the key runs into an entry.
    pub fn lookup(&self, key: &str, op: Lookup) -> (r: Result<&Value, Error>)
        ensures
            match r {
                Ok(v) => node_get(self@, key@, op) == Ok::<Node, Seq<char>>(v@),
                Err(e) => node_get(self@, key@, op) == Err::<Node, Seq<char>>(e@),
            },
        decreases key@.len(), 1nat,
    {
        match self {
            Value::Entry(_) => match op {
                Lookup::Get => Err(Error::custom("cannot call `get` on entry")),
                Lookup::GetValue => Err(Error::custom("cannot call `get_value` on entry")),
            },
            Value::Array(array) => array.lookup(key, op),
            Value::Table(table) => table.lookup(key, op),
        }
    }

    /// The value under a dotted key.
    pub fn get_value(&self, key: &str) -> (r: Result<&Value, Error>)
        ensures
            match r {
                Ok(v) => node_get(self@, key@, Lookup::GetValue) == Ok::<Node, Seq<char>>(v@),
                Err(e) => node_get(self@, key@, Lookup::GetValue) == Err::<Node, Seq<char>>(e@),
            },
    {
        self.lookup(key, Lookup::GetValue)
    }

    /// The container made for a missing intermediate key, chosen by the key
    /// segment that follows.
    pub fn fresh_container(next: &str) -> (r: Value)
        ensures
            r@ == fresh_container(next@),
    {
        match crate::text::parse_usize(next) {
            Ok(_) => Value::array(),
            Err(_) => Value::table(),
        }
    }

    /// Stores a value under a dotted key.  `value` is the outcome of turning
    /// the value to store into a tree; its error is reported only once the
    /// place to store it is reached.
    pub fn set(&mut self, key: &str, value: Result<Value, Error>) -> (r: Result<(), Error>)
        ensures
            applied(old(self)@, final(self)@, node_set(old(self)@, key@, outcome(value)), r),
        decreases key@.len(), 2nat,
    {
        match self {
            Value::Entry(_) => Err(Error::custom("cannot call `set` on entry variant")),
            Value::Array(array) => array.set(key, value),
            Value::Table(table) => table.set(key, value),
        }
    }

    /// Stores a tree under a dotted key (see [`node_set_value`] for how the
    /// key is followed).
    pub fn set_value(&mut self, key: &str, value: Value) -> (r: Result<(), Error>)
        ensures
            applied(old(self)@, final(self)@, node_set_value(old(self)@, key@, value@), r),
        decreases key@.len(), 2nat,
    {
        match self {
            Value::Entry(_) => Err(Error::custom("cannot call `set_value` on entry variant")),
            Value::Array(array) => array.set_value(key, value),
            Value::Table(table) => table.set_value(key, value),
        }
    }

    /// The entry this value is, if it is one.
    pub fn as_entry(&self) -> (r: Option<&Entry>)
        ensures
            match self {
                Value::Entry(e) => r == Some(e),
                _ => r is None,
            },
    {
        match self {
            Value::Entry(entry) => Some(entry),
            Value::Array(_) => None,
            Value::Table(_) => None,
        }
    }

    /// The array this value is, if it is one.
    pub fn as_array(&self) -> (r: Option<&Array>)
        ensures
            match self {
                Value::Array(a) => r == Some(a),
                _ => r is None,
            },
    {
        match self {
            Value::Entry(_) => None,
            Value::Array(array) => Some(array),
            Value::Table(_) => None,
        }
    }

    /// The table this value is, if it is one.
    pub fn as_table(&self) -> (r: Option<&Table>)
        ensures
            match self {
                Value::Table(t) => r == Some(t),
                _ => r is None,
            },
    {
        match self {
            Value::Entry(_) => None,
            Value::Array(_) => None,
            Value::Table(table) => Some(table),
        }
    }
}

/// A merge that was to give `m` did so: the tree became `m.0`, and the
/// result reports `m`'s error, if any.
pub open spec fn merged<T>(after: T, m: Merged<T>, r: Result<(), Error>) -> bool {
    &&& after == m.0
    &&& match m.1 {
        None => r is Ok,
        Some(msg) => r matches Err(e) && e@ == msg,
    }
}

/// Once a merge of array items has stopped on an error, later steps change
/// nothing.
pub proof fn lemma_merge_items_stop(xs: Seq<Node>, ys: Seq<Node>, k: nat, n: nat, keep: bool)
    requires
        k <= n <= ys.len(),
        merge_items(xs, ys, k, keep).1 is Some,
    ensures
        merge_items(xs, ys, n, keep) == merge_items(xs, ys, k, keep),
    decreases n - k,
{
    if n > k {
        lemma_merge_items_stop(xs, ys, k, (n - 1) as nat, keep);
    }
}

/// Once a merge of table pairs has stopped on an error, later steps change
/// nothing.
pub proof fn lemma_merge_entries_stop(
    xs: Seq<(Seq<char>, Node)>,
    ys: Seq<(Seq<char>, Node)>,
    k: nat,
    n: nat,
    keep: bool,
)
    requires
        k <= n <= ys.len(),
        merge_entries(xs, ys, k, keep).1 is Some,
    ensures
        merge_entries(xs, ys, n, keep) == merge_entries(xs, ys, k, keep),
    decreases n - k,
{
    if n > k {
        lemma_merge_entries_stop(xs, ys, k, (n - 1) as nat, keep);
    }
}

impl Value {
    /// A copy of this value.
    pub fn copy(&self) -> (r: Value)
        ensures
            r@ == self@,
        decreases self,
    {
        match self {
            Value::Entry(e) => Value::Entry(Entry(e.0.clone())),
            Value::Array(a) => Value::Array(a.copy()),
            Value::Table(t) => Value::Table(t.copy()),
        }
    }

    /// Merges `value` into this value (see [`merge_node`]); `keep` keeps
    /// this value's entries instead of taking `value`'s.
    pub fn merge_with(&mut self, value: &Value, keep: bool) -> (r: Result<(), Error>)
        ensures
            merged(final(self)@, merge_node(old(self)@, value@, keep), r),
        decreases value, 2nat,
    {
        match self {
            Value::Entry(entry) => match value {
                Value::Entry(other) => {
                    if !keep {
                        entry.0 = other.0.clone();
                    }
                    Ok(())
                },
                Value::Array(_) => Err(Error::custom("cannot merge array with entry")),
                Value::Table(_) => Err(Error::custom("cannot merge table with entry")),
            },
            Value::Array(array) => match value {
                Value::Entry(_) => Err(Error::custom("cannot merge entry with array")),
                Value::Array(other) => array.merge_with(other, keep),
                Value::Table(_) => Err(Error::custom("cannot merge table with array")),
            },
            Value::Table(table) => match value {
                Value::Entry(_) => Err(Error::custom("cannot merge entry with table")),
                Value::Array(_) => Err(Error::custom("cannot merge array with table")),
                Value::Table(other) => table.merge_with(other, keep),
            },
        }
    }

    /// Merges `value` into this value: entries take `value`'s text.
    pub fn merge(&mut self, value: &Value) -> (r: Result<(), Error>)
        ensures
            merged(final(self)@, merge_node(old(self)@, value@, false), r),
            old(self)@ == value@ ==> r is Ok && final(self)@ == old(self)@,
    {
        value_wf(value);
        proof {
            laws::law_merge_self(value@, false);
        }
        self.merge_with(value, false)
    }

    /// Same as [`Value::merge`].
    pub fn merge_value(&mut self, value: &Value) -> (r: Result<(), Error>)
        ensures
            merged(final(self)@, merge_node(old(self)@, value@, false), r),
    {
        self.merge(value)
    }

    /// Merges `value` into this value as defaults: entries keep their text.
    pub fn merge_default(&mut self, value: &Value) -> (r: Result<(), Error>)
        ensures
            merged(final(self)@, merge_node(old(self)@, value@, true), r),
    {
        self.merge_with(value, true)
    }
}

impl From<bool> for Value {
    fn from(value: bool) -> (r: Value)
        ensures
            r@ == Node::Entry(if value { "true"@ } else { "false"@ }),
    {
        Value::Entry(Entry::from(value))
    }
}

impl FromSpecImpl<bool> for Value {
    open spec fn obeys_from_spec() -> bool {
        false
    }

    open spec fn from_spec(v: bool) -> Value {
        choose|x: Value| #[trigger] x@ == Node::Entry(if v { "true"@ } else { "false"@ })
    }
}

impl From<i8> for Value {
    fn from(value: i8) -> (r: Value)
        ensures
            r@ == Node::Entry(signed_decimal(value as int)),
    {
        Value::Entry(Entry::from(value))
    }
}

impl FromSpecImpl<i8> for Value {
    open spec fn obeys_from_spec() -> bool {
        false
    }

    open spec fn from_spec(v: i8) -> Value {
        choose|x: Value| #[trigger] x@ == Node::Entry(signed_decimal(v as int))
    }
}

impl From<i16> for Value {
    fn from(value: i16) -> (r: Value)
        ensures
            r@ == Node::Entry(signed_decimal(value as int)),
    {
        Value::Entry(Entry::from(value))
    }
}

impl FromSpecImpl<i16> for Value {
    open spec fn obeys_from_spec() -> bool {
        false
    }

    open spec fn from_spec(v: i16) -> Value {
        choose|x: Value| #[trigger] x@ == Node::Entry(signed_decimal(v as int))
    }
}

impl From<i32> for Value {
    fn from(value: i32) -> (r: Value)
        ensures
            r@ == Node::Entry(signed_decimal(value as int)),
    {
        Value::Entry(Entry::from(value))
    }
}

impl FromSpecImpl<i32> for Value {
    open spec fn obeys_from_spec() -> bool {
        false
    }

    open spec fn from_spec(v: i32) -> Value {
        choose|x: Value| #[trigger] x@ == Node::Entry(signed_decimal(v as int))
    }
}

impl From<i64> for Value {
    fn from(value: i64) -> (r: Value)
        ensures
            r@ == Node::Entry(signed_decimal(value as int)),
    {
        Value::Entry(Entry::from(value))
    }
}

impl FromSpecImpl<i64> for Value {
    open spec fn obeys_from_spec() -> bool {
        false
    }

    open spec fn from_spec(v: i64) -> Value {
        choose|x: Value| #[trigger] x@ == Node::Entry(signed_decimal(v as int))
    }
}

impl From<i128> for Value {
    fn from(value: i128) -> (r: Value)
        ensures
            r@ == Node::Entry(signed_decimal(value as int)),
    {
        Value::Entry(Entry::from(value))
    }
}

impl FromSpecImpl<i128> for Value {
    open spec fn obeys_from_spec() -> bool {
        false
    }

    open spec fn from_spec(v: i128) -> Value {
        choose|x: Value| #[trigger] x@ == Node::Entry(signed_decimal(v as int))
    }
}

impl From<u8> for Value {
    fn from(value: u8) -> (r: Value)
        ensures
            r@ == Node::Entry(decimal(value as nat)),
    {
        Value::Entry(Entry::from(value))
    }
}

impl FromSpecImpl<u8> for Value {
    open spec fn obeys_from_spec() -> bool {
        false
    }

    open spec fn from_spec(v: u8) -> Value {
        choose|x: Value| #[trigger] x@ == Node::Entry(decimal(v as nat))
    }
}

impl From<u16> for Value {
    fn from(value: u16) -> (r: Value)
        ensures
            r@ == Node::Entry(decimal(value as nat)),
    {
        Value::Entry(Entry::from(value))
    }
}

impl FromSpecImpl<u16> for Value {
    open spec fn obeys_from_spec() -> bool {
        false
    }

    open spec fn from_spec(v: u16) -> Value {
        choose|x: Value| #[trigger] x@ == Node::Entry(decimal(v as nat))
    }
}

impl From<u32> for Value {
    fn from(value: u32) -> (r: Value)
        ensures
            r@ == Node::Entry(decimal(value as nat)),
    {
        Value::Entry(Entry::from(value))
    }
}

impl FromSpecImpl<u32> for Value {
    open spec fn obeys_from_spec() -> bool {
        false
    }

    open spec fn from_spec(v: u32) -> Value {
        choose|x: Value| #[trigger] x@ == Node::Entry(decimal(v as nat))
    }
}

impl From<u64> for Value {
    fn from(value: u64) -> (r: Value)
        ensures
            r@ == Node::Entry(decimal(value as nat)),
    {
        Value::Entry(Entry::from(value))
    }
}

impl FromSpecImpl<u64> for Value {
    open spec fn obeys_from_spec() -> bool {
        false
    }

    open spec fn from_spec(v: u64) -> Value {
        choose|x: Value| #[trigger] x@ == Node::Entry(decimal(v as nat))
    }
}

impl From<u128> for Value {
    fn from(value: u128) -> (r: Value)
        ensures
            r@ == Node::Entry(decimal(value as nat)),
    {
        Value::Entry(Entry::from(value))
    }
}

impl FromSpecImpl<u128> for Value {
    open spec fn obeys_from_spec() -> bool {
        false
    }

    open spec fn from_spec(v: u128) -> Value {
        choose|x: Value| #[trigger] x@ == Node::Entry(decimal(v as nat))
    }
}

impl From<char> for Value {
    fn from(value: char) -> (r: Value)
        ensures
            r@ == Node::Entry(seq![value]),
    {
        Value::Entry(Entry::from(value))
    }
}

impl FromSpecImpl<char> for Value {
    open spec fn obeys_from_spec() -> bool {
        false
    }

    open spec fn from_spec(v: char) -> Value {
        choose|x: Value| #[trigger] x@ == Node::Entry(seq![v])
    }
}

impl From<&str> for Value {
    fn from(value: &str) -> (r: Value)
        ensures
            r@ == Node::Entry(value@),
    {
        Value::Entry(Entry::from(value))
    }
}

impl FromSpecImpl<&str> for Value {
    open spec fn obeys_from_spec() -> bool {
        false
    }

    open spec fn from_spec(v: &str) -> Value {
        choose|x: Value| #[trigger] x@ == Node::Entry(v@)
    }
}

impl From<String> for Value {
    fn from(value: String) -> (r: Value)
        ensures
            r@ == Node::Entry(value@),
    {
        Value::Entry(Entry::from(value))
    }
}

impl FromSpecImpl<String> for Value {
    open spec fn obeys_from_spec() -> bool {
        false
    }

    open spec fn from_spec(v: String) -> Value {
        choose|x: Value| #[trigger] x@ == Node::Entry(v@)
    }
}

impl From<Entry> for Value {
    fn from(value: Entry) -> (r: Value)
        ensures
            r@ == Node::Entry(value@),
    {
        Value::Entry(value)
    }
}

impl FromSpecImpl<Entry> for Value {
    open spec fn obeys_from_spec() -> bool {
        true
    }

    open spec fn from_spec(v: Entry) -> Value {
        Value::Entry(v)
    }
}

impl From<Array> for Value {
    fn from(value: Array) -> (r: Value)
        ensures
            r@ == Node::Array(value@),
    {
        Value::Array(value)
    }
}

impl FromSpecImpl<Array> for Value {
    open spec fn obeys_from_spec() -> bool {
        true
    }

    open spec fn from_spec(v: Array) -> Value {
        Value::Array(v)
    }
}

impl From<Table> for Value {
    fn from(value: Table) -> (r: Value)
        ensures
            r@ == Node::Table(value@),
    {
        Value::Table(value)
    }
}

impl FromSpecImpl<Table> for Value {
    open spec fn obeys_from_spec() -> bool {
        true
    }

    open spec fn from_spec(v: Table) -> Value {
        Value::Table(v)
    }
}

impl From<Vec<Value>> for Value {
    fn from(value: Vec<Value>) -> (r: Value)
        ensures
            r@ == Node::Array(values_view(value@)),
    {
        Value::Array(Array::from_items(value))
    }
}

impl FromSpecImpl<Vec<Value>> for Value {
    open spec fn obeys_from_spec() -> bool {
        false
    }

    closed spec fn from_spec(v: Vec<Value>) -> Value {
        Value::Array(Array::of_items(v))
    }
}

impl Clone for Value {
    fn clone(&self) -> (r: Value)
        ensures
            r@ == self@,
    {
        self.copy()
    }
}

} // verus!
