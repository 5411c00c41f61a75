//! Properties that relate the operations on configuration trees.
use vstd::prelude::*;

use super::de::{read_bool, read_char, read_int, read_text};
use super::table::table_of_pairs;
use super::{
    find_key, is_first_key, keys_distinct, lemma_find_key, lemma_find_key_insert,
    lemma_find_key_push, lemma_find_key_same_keys, lemma_first_key_exists, lemma_merge_entries_stop,
    merge_entries, merge_items, merge_node, node_get, node_set, node_set_default, node_set_value,
    node_wf, parse_index, table_insert, table_lookup, Lookup, Node,
};
use crate::text::{
    decimal, digit_char, digit_value, is_digit, key_head, key_rest, key_without_first_dot,
    lemma_key_parts_shorter, lemma_parse_unsigned_range, scan_digits, signed_decimal,
    spec_parse_int, IntErrorKind,
};

verus! {

/// Reading a key right after `set` stored a value under it gives back that
/// value, whichever operation reads.
pub proof fn law_get_after_set(n: Node, key: Seq<char>, v: Node, op: Lookup)
    ensures
        node_set(n, key, Ok(v)) matches Ok(n2) ==> node_get(n2, key, op) == Ok::<
            Node,
            Seq<char>,
        >(v),
    decreases key.len(),
{
    lemma_key_parts_shorter(key);
    lemma_parse_unsigned_range(key_head(key), usize::MAX as int);
    if let Ok(n2) = node_set(n, key, Ok(v)) {
        match n {
            Node::Entry(_) => {},
            Node::Array(items) => {
                let idx = super::parse_index(key_head(key))->Ok_0;
                match key_rest(key) {
                    None => {
                        assert(n2 == Node::Array(items.insert(idx, v)));
                    },
                    Some(r) => {
                        if idx < items.len() {
                            law_get_after_set(items[idx], r, v, op);
                        } else {
                            law_get_after_set(super::fresh_container(key_head(r)), r, v, op);
                        }
                    },
                }
            },
            Node::Table(es) => {
                let h = key_head(key);
                match key_rest(key) {
                    None => {
                        lemma_find_key_insert(es, h, v);
                    },
                    Some(r) => {
                        lemma_find_key(es, h);
                        match find_key(es, h) {
                            Some(i) => {
                                let c = node_set(es[i].1, r, Ok(v))->Ok_0;
                                let es2 = es.update(i, (es[i].0, c));
                                lemma_find_key_same_keys(es, es2, h);
                                law_get_after_set(es[i].1, r, v, op);
                            },
                            None => {
                                let c = node_set(super::fresh_container(key_head(r)), r, Ok(v))->Ok_0;
                                lemma_find_key_push(es, h, c, h);
                                law_get_after_set(super::fresh_container(key_head(r)), r, v, op);
                            },
                        }
                    },
                }
            },
        }
    }
}

/// What a key holds after a merge, from what it held in the table merged
/// into (`a`) and in the table merged from (`b`).
pub open spec fn merged_lookup(a: Option<Node>, b: Option<Node>, keep: bool) -> Option<Node> {
    match a {
        Some(x) => match b {
            Some(y) => Some(merge_node(x, y, keep).0),
            None => Some(x),
        },
        None => b,
    }
}

/// A key held by the last pair of a table without repeated keys is held by
/// none of the pairs before it.
proof fn lemma_distinct_last_key_new(ys: Seq<(Seq<char>, Node)>, n: int)
    requires
        keys_distinct(ys),
        0 < n <= ys.len(),
    ensures
        find_key(ys.take(n - 1), ys[n - 1].0) is None,
{
    let t = ys.take(n - 1);
    if let Some(i) = find_key(t, ys[n - 1].0) {
        lemma_find_key(t, ys[n - 1].0);
        assert(t[i] == ys[i]);
    }
}

/// Merging the first `n` pairs of `ys` into `xs`, when no error stopped
/// it, leaves each key with the merge of what the two held.
proof fn lemma_merge_entries_lookup(
    xs: Seq<(Seq<char>, Node)>,
    ys: Seq<(Seq<char>, Node)>,
    n: nat,
    keep: bool,
    k: Seq<char>,
)
    requires
        keys_distinct(ys),
        n <= ys.len(),
        merge_entries(xs, ys, n, keep).1 is None,
    ensures
        table_lookup(merge_entries(xs, ys, n, keep).0, k) == merged_lookup(
            table_lookup(xs, k),
            table_lookup(ys.take(n as int), k),
            keep,
        ),
    decreases n,
{
    if n == 0 {
        assert(ys.take(0) =~= Seq::<(Seq<char>, Node)>::empty());
        lemma_find_key(ys.take(0), k);
        return;
    }
    let prev = merge_entries(xs, ys, (n - 1) as nat, keep);
    if prev.1 is Some {
        lemma_merge_entries_stop(xs, ys, (n - 1) as nat, n, keep);
        return;
    }
    lemma_merge_entries_lookup(xs, ys, (n - 1) as nat, keep, k);
    let y = ys[n - 1];
    let before = ys.take(n - 1);
    assert(ys.take(n as int) =~= before.push(y));
    lemma_find_key_push(before, y.0, y.1, k);
    lemma_distinct_last_key_new(ys, n as int);
    lemma_find_key(prev.0, k);
    match find_key(prev.0, y.0) {
        Some(i) => {
            let m = merge_node(prev.0[i].1, y.1, keep);
            let after = prev.0.update(i, (prev.0[i].0, m.0));
            lemma_find_key_same_keys(prev.0, after, k);
            lemma_find_key(prev.0, y.0);
            if k == y.0 {
                lemma_find_key_same_keys(prev.0, after, y.0);
            }
        },
        None => {
            lemma_find_key_push(prev.0, y.0, y.1, k);
        },
    }
}

/// After a table is merged into another without error, each key holds the
/// merge of the two values where both tables hold it, and otherwise the
/// value of whichever table holds it.
pub proof fn law_merge_tables(
    xs: Seq<(Seq<char>, Node)>,
    ys: Seq<(Seq<char>, Node)>,
    keep: bool,
    k: Seq<char>,
)
    requires
        keys_distinct(ys),
        merge_node(Node::Table(xs), Node::Table(ys), keep).1 is None,
    ensures
        merge_node(Node::Table(xs), Node::Table(ys), keep).0 matches Node::Table(zs)
            && table_lookup(zs, k) == merged_lookup(table_lookup(xs, k), table_lookup(ys, k), keep),
{
    lemma_merge_entries_lookup(xs, ys, ys.len(), keep, k);
    assert(ys.take(ys.len() as int) =~= ys);
}

/// A dotted key with at most one dot.
pub open spec fn at_most_one_dot(key: Seq<char>) -> bool {
    match key_rest(key) {
        None => true,
        Some(r) => key_rest(r) is None,
    }
}

/// Reading a key right after `set_value` stored a value under it gives back
/// that value, for keys of one or two segments.  (With more segments
/// `set_value` does not store the value under the key it was given: below an
/// existing container it uses only the next segment, and a fresh container
/// gets the rest of the key with its first dot taken out.)
pub proof fn law_get_after_set_value(n: Node, key: Seq<char>, v: Node, op: Lookup)
    requires
        at_most_one_dot(key),
    ensures
        node_set_value(n, key, v) matches Ok(n2) ==> node_get(n2, key, op) == Ok::<
            Node,
            Seq<char>,
        >(v),
    decreases key.len(),
{
    lemma_key_parts_shorter(key);
    lemma_parse_unsigned_range(key_head(key), usize::MAX as int);
    if let Ok(n2) = node_set_value(n, key, v) {
        match n {
            Node::Entry(_) => {},
            Node::Array(items) => {
                let idx = super::parse_index(key_head(key))->Ok_0;
                match key_rest(key) {
                    None => {
                        assert(n2 == Node::Array(items.insert(idx, v)));
                    },
                    Some(r) => {
                        assert(key_head(r) == r);
                        assert(key_without_first_dot(r) == r);
                        if idx < items.len() {
                            law_get_after_set_value(items[idx], r, v, op);
                        } else {
                            law_get_after_set_value(super::fresh_container(r), r, v, op);
                        }
                    },
                }
            },
            Node::Table(es) => {
                let h = key_head(key);
                match key_rest(key) {
                    None => {
                        lemma_find_key_insert(es, h, v);
                    },
                    Some(r) => {
                        assert(key_head(r) == r);
                        assert(key_without_first_dot(r) == r);
                        lemma_find_key(es, h);
                        match find_key(es, h) {
                            Some(i) => {
                                let c = node_set_value(es[i].1, r, v)->Ok_0;
                                let es2 = es.update(i, (es[i].0, c));
                                lemma_find_key_same_keys(es, es2, h);
                                law_get_after_set_value(es[i].1, r, v, op);
                            },
                            None => {
                                let c = node_set_value(super::fresh_container(r), r, v)->Ok_0;
                                lemma_find_key_push(es, h, c, h);
                                law_get_after_set_value(super::fresh_container(r), r, v, op);
                            },
                        }
                    },
                }
            },
        }
    }
}

/// Putting a well-formed value into a well-formed table keeps it
/// well-formed.
pub(crate) proof fn lemma_table_insert_wf(es: Seq<(Seq<char>, Node)>, k: Seq<char>, x: Node)
    requires
        node_wf(Node::Table(es)),
        node_wf(x),
    ensures
        node_wf(Node::Table(table_insert(es, k, x))),
{
    lemma_find_key(es, k);
    match find_key(es, k) {
        Some(i) => {
            lemma_table_update_wf(es, i, x);
            assert(es.update(i, (es[i].0, x)) == es.update(i, (k, x)));
        },
        None => {
            lemma_table_push_wf(es, k, x);
        },
    }
}

/// Replacing the value of one pair of a well-formed table by a well-formed
/// value keeps it well-formed.
pub(crate) proof fn lemma_table_update_wf(es: Seq<(Seq<char>, Node)>, i: int, c: Node)
    requires
        node_wf(Node::Table(es)),
        0 <= i < es.len(),
        node_wf(c),
    ensures
        node_wf(Node::Table(es.update(i, (es[i].0, c)))),
{
    let es2 = es.update(i, (es[i].0, c));
    assert forall|a: int, b: int| 0 <= a < b < es2.len() implies es2[a].0 != es2[b].0 by {
        assert(es2[a].0 == es[a].0 && es2[b].0 == es[b].0);
    }
    assert forall|j: int| 0 <= j < es2.len() implies #[trigger] node_wf(es2[j].1) by {
        if j != i {
            assert(es2[j] == es[j]);
            assert(node_wf(es[j].1));
        } else {
            assert(es2[j].1 == c);
        }
    }
}

/// Adding a pair with a new key and a well-formed value to a well-formed
/// table keeps it well-formed.
pub(crate) proof fn lemma_table_push_wf(es: Seq<(Seq<char>, Node)>, k: Seq<char>, c: Node)
    requires
        node_wf(Node::Table(es)),
        find_key(es, k) is None,
        node_wf(c),
    ensures
        node_wf(Node::Table(es.push((k, c)))),
{
    lemma_find_key(es, k);
    let es2 = es.push((k, c));
    assert forall|a: int, b: int| 0 <= a < b < es2.len() implies es2[a].0 != es2[b].0 by {
        assert(es2[a] == es[a]);
        if b < es.len() {
            assert(es2[b] == es[b]);
        }
    }
    assert forall|j: int| 0 <= j < es2.len() implies #[trigger] node_wf(es2[j].1) by {
        if j < es.len() {
            assert(es2[j] == es[j]);
            assert(node_wf(es[j].1));
        } else {
            assert(es2[j].1 == c);
        }
    }
}

/// The items of a well-formed array are well-formed.
pub(crate) proof fn lemma_item_wf(items: Seq<Node>, j: int)
    requires
        node_wf(Node::Array(items)),
        0 <= j < items.len(),
    ensures
        node_wf(items[j]),
{
    let n = Node::Array(items);
    assert(n->Array_0 == items);
}

/// An array whose items are all well-formed is well-formed.
pub(crate) proof fn lemma_array_of_wf(items: Seq<Node>)
    requires
        forall|j: int| 0 <= j < items.len() ==> #[trigger] node_wf(items[j]),
    ensures
        node_wf(Node::Array(items)),
{
    assert forall|i: int| 0 <= i < items.len() implies node_wf(#[trigger] items[i]) by {}
}

/// Putting a well-formed item into a well-formed array keeps it
/// well-formed, whether it is inserted, replaces an item or is appended.
pub(crate) proof fn lemma_array_wf(items: Seq<Node>, idx: int, c: Node)
    requires
        node_wf(Node::Array(items)),
        node_wf(c),
        0 <= idx <= items.len(),
    ensures
        node_wf(Node::Array(items.insert(idx, c))),
        node_wf(Node::Array(items.push(c))),
        idx < items.len() ==> node_wf(Node::Array(items.update(idx, c))),
{
    items.insert_ensures(idx, c);
    let ins = items.insert(idx, c);
    assert forall|j: int| 0 <= j < ins.len() implies #[trigger] node_wf(ins[j]) by {
        if j < idx {
            assert(ins[j] == items[j]);
            lemma_item_wf(items, j);
        } else if j == idx {
            assert(ins[j] == c);
        } else {
            assert(ins[(j - 1) + 1] == items[j - 1]);
            lemma_item_wf(items, j - 1);
        }
    }
    lemma_array_of_wf(ins);
    let pushed = items.push(c);
    assert forall|j: int| 0 <= j < pushed.len() implies #[trigger] node_wf(pushed[j]) by {
        if j < items.len() {
            assert(pushed[j] == items[j]);
            lemma_item_wf(items, j);
        } else {
            assert(pushed[j] == c);
        }
    }
    lemma_array_of_wf(pushed);
    if idx < items.len() {
        let upd = items.update(idx, c);
        assert forall|j: int| 0 <= j < upd.len() implies #[trigger] node_wf(upd[j]) by {
            if j != idx {
                assert(upd[j] == items[j]);
                lemma_item_wf(items, j);
            } else {
                assert(upd[j] == c);
            }
        }
        lemma_array_of_wf(upd);
    }
}

/// A fresh container is well-formed.
pub(crate) proof fn lemma_fresh_container_wf(next: Seq<char>)
    ensures
        node_wf(super::fresh_container(next)),
{
}

/// Storing a well-formed value with `set` keeps a tree well-formed: no table
/// ends up holding a key twice.
pub proof fn law_set_keeps_wf(n: Node, key: Seq<char>, v: Node)
    requires
        node_wf(n),
        node_wf(v),
    ensures
        node_set(n, key, Ok(v)) matches Ok(n2) ==> node_wf(n2),
    decreases key.len(),
{
    lemma_key_parts_shorter(key);
    lemma_parse_unsigned_range(key_head(key), usize::MAX as int);
    if let Ok(n2) = node_set(n, key, Ok(v)) {
        match n {
            Node::Entry(_) => {},
            Node::Array(items) => {
                let idx = super::parse_index(key_head(key))->Ok_0;
                match key_rest(key) {
                    None => {
                        lemma_array_wf(items, idx, v);
                    },
                    Some(r) => {
                        if idx < items.len() {
                            lemma_item_wf(items, idx);
                            law_set_keeps_wf(items[idx], r, v);
                            lemma_array_wf(items, idx, node_set(items[idx], r, Ok(v))->Ok_0);
                        } else {
                            let f = super::fresh_container(key_head(r));
                            lemma_fresh_container_wf(key_head(r));
                            law_set_keeps_wf(f, r, v);
                            lemma_array_wf(items, idx, node_set(f, r, Ok(v))->Ok_0);
                        }
                    },
                }
            },
            Node::Table(es) => {
                let h = key_head(key);
                match key_rest(key) {
                    None => {
                        lemma_table_insert_wf(es, h, v);
                    },
                    Some(r) => {
                        lemma_find_key(es, h);
                        match find_key(es, h) {
                            Some(i) => {
                                assert(node_wf(es[i].1));
                                law_set_keeps_wf(es[i].1, r, v);
                                lemma_table_update_wf(es, i, node_set(es[i].1, r, Ok(v))->Ok_0);
                            },
                            None => {
                                let f = super::fresh_container(key_head(r));
                                lemma_fresh_container_wf(key_head(r));
                                law_set_keeps_wf(f, r, v);
                                lemma_table_push_wf(es, h, node_set(f, r, Ok(v))->Ok_0);
                            },
                        }
                    },
                }
            },
        }
    }
}

/// Storing a well-formed value with `set_value` keeps a tree well-formed.
pub proof fn law_set_value_keeps_wf(n: Node, key: Seq<char>, v: Node)
    requires
        node_wf(n),
        node_wf(v),
    ensures
        node_set_value(n, key, v) matches Ok(n2) ==> node_wf(n2),
    decreases key.len(),
{
    lemma_key_parts_shorter(key);
    lemma_parse_unsigned_range(key_head(key), usize::MAX as int);
    if let Ok(n2) = node_set_value(n, key, v) {
        match n {
            Node::Entry(_) => {},
            Node::Array(items) => {
                let idx = super::parse_index(key_head(key))->Ok_0;
                match key_rest(key) {
                    None => {
                        lemma_array_wf(items, idx, v);
                    },
                    Some(r) => {
                        lemma_key_parts_shorter(r);
                        if idx < items.len() {
                            lemma_item_wf(items, idx);
                            law_set_value_keeps_wf(items[idx], key_head(r), v);
                            lemma_array_wf(items, idx, node_set_value(items[idx], key_head(r), v)->Ok_0);
                        } else {
                            let f = super::fresh_container(key_head(r));
                            let k2 = key_without_first_dot(r);
                            lemma_fresh_container_wf(key_head(r));
                            law_set_value_keeps_wf(f, k2, v);
                            lemma_array_wf(items, idx, node_set_value(f, k2, v)->Ok_0);
                        }
                    },
                }
            },
            Node::Table(es) => {
                let h = key_head(key);
                match key_rest(key) {
                    None => {
                        lemma_table_insert_wf(es, h, v);
                    },
                    Some(r) => {
                        lemma_key_parts_shorter(r);
                        lemma_find_key(es, h);
                        match find_key(es, h) {
                            Some(i) => {
                                assert(node_wf(es[i].1));
                                law_set_value_keeps_wf(es[i].1, key_head(r), v);
                                lemma_table_update_wf(es, i, node_set_value(es[i].1, key_head(r), v)->Ok_0);
                            },
                            None => {
                                let f = super::fresh_container(key_head(r));
                                let k2 = key_without_first_dot(r);
                                lemma_fresh_container_wf(key_head(r));
                                law_set_value_keeps_wf(f, k2, v);
                                lemma_table_push_wf(es, h, node_set_value(f, k2, v)->Ok_0);
                            },
                        }
                    },
                }
            },
        }
    }
}

/// The value of each pair of a well-formed table is well-formed.
proof fn lemma_entry_wf(es: Seq<(Seq<char>, Node)>, j: int)
    requires
        node_wf(Node::Table(es)),
        0 <= j < es.len(),
    ensures
        node_wf(es[j].1),
{
    let n = Node::Table(es);
    assert(n->Table_0 == es);
}

/// Merging well-formed trees gives a well-formed tree, also when a conflict
/// stopped the merge part way.
proof fn lemma_merge_node_wf(a: Node, b: Node, keep: bool)
    requires
        node_wf(a),
        node_wf(b),
    ensures
        node_wf(merge_node(a, b, keep).0),
    decreases b, 0nat,
{
    match a {
        Node::Array(xs) => if let Node::Array(ys) = b {
            lemma_merge_items_wf(xs, ys, ys.len(), keep);
            lemma_array_of_wf(merge_items(xs, ys, ys.len(), keep).0);
        },
        Node::Table(xs) => if let Node::Table(ys) = b {
            lemma_merge_entries_wf(xs, ys, ys.len(), keep);
        },
        Node::Entry(_) => {},
    }
}

/// Merging the first `n` items of a well-formed array into another leaves
/// only well-formed items.
pub(crate) proof fn lemma_merge_items_wf(xs: Seq<Node>, ys: Seq<Node>, n: nat, keep: bool)
    requires
        node_wf(Node::Array(xs)),
        node_wf(Node::Array(ys)),
    ensures
        forall|j: int|
            0 <= j < merge_items(xs, ys, n, keep).0.len() ==> #[trigger] node_wf(
                merge_items(xs, ys, n, keep).0[j],
            ),
    decreases ys, n,
{
    if n == 0 || n > ys.len() {
        assert forall|j: int| 0 <= j < xs.len() implies #[trigger] node_wf(xs[j]) by {
            lemma_item_wf(xs, j);
        }
        return;
    }
    lemma_merge_items_wf(xs, ys, (n - 1) as nat, keep);
    let prev = merge_items(xs, ys, (n - 1) as nat, keep);
    if prev.1 is Some {
        return;
    }
    lemma_array_of_wf(prev.0);
    lemma_item_wf(ys, n - 1);
    if n - 1 < prev.0.len() {
        lemma_item_wf(prev.0, n - 1);
        lemma_merge_node_wf(prev.0[n - 1], ys[n - 1], keep);
        lemma_array_wf(prev.0, n - 1, merge_node(prev.0[n - 1], ys[n - 1], keep).0);
    } else {
        lemma_array_wf(prev.0, prev.0.len() as int, ys[n - 1]);
    }
    let res = merge_items(xs, ys, n, keep).0;
    assert forall|j: int| 0 <= j < res.len() implies #[trigger] node_wf(res[j]) by {
        lemma_item_wf(res, j);
    }
}

/// Merging the first `n` pairs of a well-formed table into another
/// well-formed table gives a well-formed table.
pub(crate) proof fn lemma_merge_entries_wf(
    xs: Seq<(Seq<char>, Node)>,
    ys: Seq<(Seq<char>, Node)>,
    n: nat,
    keep: bool,
)
    requires
        node_wf(Node::Table(xs)),
        node_wf(Node::Table(ys)),
    ensures
        node_wf(Node::Table(merge_entries(xs, ys, n, keep).0)),
    decreases ys, n,
{
    if n == 0 || n > ys.len() {
        return;
    }
    lemma_merge_entries_wf(xs, ys, (n - 1) as nat, keep);
    let prev = merge_entries(xs, ys, (n - 1) as nat, keep);
    if prev.1 is Some {
        return;
    }
    let y = ys[n - 1];
    lemma_entry_wf(ys, n - 1);
    lemma_find_key(prev.0, y.0);
    match find_key(prev.0, y.0) {
        Some(i) => {
            lemma_entry_wf(prev.0, i);
            lemma_merge_node_wf(prev.0[i].1, y.1, keep);
            lemma_table_update_wf(prev.0, i, merge_node(prev.0[i].1, y.1, keep).0);
        },
        None => {
            lemma_table_push_wf(prev.0, y.0, y.1);
        },
    }
}

/// Merging keeps trees well-formed: merging one well-formed tree into
/// another gives a well-formed tree, whether or not the merge met a
/// conflict.
pub proof fn law_merge_keeps_wf(a: Node, b: Node, keep: bool)
    requires
        node_wf(a),
        node_wf(b),
    ensures
        node_wf(merge_node(a, b, keep).0),
{
    lemma_merge_node_wf(a, b, keep);
}

/// `set_default` leaves a tree as it is where the key already leads to a
/// value, and acts as `set` where it does not.
pub proof fn law_set_default(n: Node, key: Seq<char>, v: Result<Node, Seq<char>>)
    ensures
        node_get(n, key, Lookup::GetValue) is Ok ==> node_set_default(n, key, v) == Ok::<
            Node,
            Seq<char>,
        >(n),
        node_get(n, key, Lookup::GetValue) is Err ==> node_set_default(n, key, v) == node_set(
            n,
            key,
            v,
        ),
{
}

/// Merging an empty table into a table changes nothing.
pub proof fn law_merge_empty_table(xs: Seq<(Seq<char>, Node)>, keep: bool)
    ensures
        merge_node(Node::Table(xs), Node::Table(Seq::empty()), keep) == (
            Node::Table(xs),
            None::<Seq<char>>,
        ),
{
}

/// Merging the first `n` pairs of a table without repeated keys into an
/// empty table copies them.
proof fn lemma_merge_into_empty(ys: Seq<(Seq<char>, Node)>, n: nat, keep: bool)
    requires
        keys_distinct(ys),
        n <= ys.len(),
    ensures
        merge_entries(Seq::empty(), ys, n, keep) == (ys.take(n as int), None::<Seq<char>>),
    decreases n,
{
    if n > 0 {
        lemma_merge_into_empty(ys, (n - 1) as nat, keep);
        lemma_distinct_last_key_new(ys, n as int);
        assert(ys.take(n as int) =~= ys.take(n - 1).push(ys[n - 1]));
    } else {
        assert(ys.take(0) =~= Seq::<(Seq<char>, Node)>::empty());
    }
}

/// Merging a table into an empty table copies it.
pub proof fn law_merge_into_empty_table(ys: Seq<(Seq<char>, Node)>, keep: bool)
    requires
        keys_distinct(ys),
    ensures
        merge_node(Node::Table(Seq::empty()), Node::Table(ys), keep) == (
            Node::Table(ys),
            None::<Seq<char>>,
        ),
{
    lemma_merge_into_empty(ys, ys.len(), keep);
    assert(ys.take(ys.len() as int) =~= ys);
}

/// The item at position `i` after a merge of arrays: the merge of the two
/// items where both arrays have one, else the item of whichever has it.
pub open spec fn merged_item(xs: Seq<Node>, ys: Seq<Node>, i: int, keep: bool) -> Node {
    if i < xs.len() && i < ys.len() {
        merge_node(xs[i], ys[i], keep).0
    } else if i < xs.len() {
        xs[i]
    } else {
        ys[i]
    }
}

/// Merging the first `n` items of `ys` into `xs`, when no error stopped it,
/// merges them position by position and appends the rest.
proof fn lemma_merge_items_result(xs: Seq<Node>, ys: Seq<Node>, n: nat, keep: bool)
    requires
        n <= ys.len(),
        merge_items(xs, ys, n, keep).1 is None,
    ensures
        merge_items(xs, ys, n, keep).0.len() == if n > xs.len() { n as int } else { xs.len() as int },
        forall|i: int|
            0 <= i < merge_items(xs, ys, n, keep).0.len() ==> #[trigger] merge_items(xs, ys, n, keep).0[i]
                == if i < n { merged_item(xs, ys, i, keep) } else { xs[i] },
    decreases n,
{
    if n == 0 {
        return;
    }
    let prev = merge_items(xs, ys, (n - 1) as nat, keep);
    if prev.1 is Some {
        lemma_merge_items_stop_at(xs, ys, (n - 1) as nat, n, keep);
        return;
    }
    lemma_merge_items_result(xs, ys, (n - 1) as nat, keep);
}

/// A merge of array items that stopped on an error stays stopped.
proof fn lemma_merge_items_stop_at(xs: Seq<Node>, ys: Seq<Node>, k: nat, n: nat, keep: bool)
    requires
        k <= n <= ys.len(),
        merge_items(xs, ys, k, keep).1 is Some,
    ensures
        merge_items(xs, ys, n, keep).1 is Some,
{
    super::lemma_merge_items_stop(xs, ys, k, n, keep);
}

/// After an array is merged into another without error, the result is as
/// long as the longer of the two, and each position holds the merge of the
/// two items where both arrays have one, else the item of whichever has it.
pub proof fn law_merge_arrays(xs: Seq<Node>, ys: Seq<Node>, keep: bool)
    requires
        merge_node(Node::Array(xs), Node::Array(ys), keep).1 is None,
    ensures
        merge_node(Node::Array(xs), Node::Array(ys), keep).0 matches Node::Array(zs) && zs.len() == (
        if ys.len() > xs.len() {
            ys.len()
        } else {
            xs.len()
        }) && forall|i: int| 0 <= i < zs.len() ==> #[trigger] zs[i] == merged_item(xs, ys, i, keep),
{
    lemma_merge_items_result(xs, ys, ys.len(), keep);
}

/// In a table without repeated keys, each pair is what its key looks up.
proof fn lemma_lookup_own_key(ys: Seq<(Seq<char>, Node)>, j: int)
    requires
        keys_distinct(ys),
        0 <= j < ys.len(),
    ensures
        table_lookup(ys, ys[j].0) == Some(ys[j].1),
{
    lemma_find_key(ys, ys[j].0);
}

/// Merging the first `n` pairs of `ys` into `xs` meets no conflict when
/// the values of every key both hold merge without one.
proof fn lemma_merge_entries_succeed(
    xs: Seq<(Seq<char>, Node)>,
    ys: Seq<(Seq<char>, Node)>,
    n: nat,
    keep: bool,
)
    requires
        keys_distinct(ys),
        n <= ys.len(),
        forall|k: Seq<char>|
            #![trigger table_lookup(xs, k), table_lookup(ys, k)]
            table_lookup(xs, k) is Some && table_lookup(ys, k) is Some ==> merge_node(
                table_lookup(xs, k)->0,
                table_lookup(ys, k)->0,
                keep,
            ).1 is None,
    ensures
        merge_entries(xs, ys, n, keep).1 is None,
    decreases n,
{
    if n == 0 {
        return;
    }
    lemma_merge_entries_succeed(xs, ys, (n - 1) as nat, keep);
    let prev = merge_entries(xs, ys, (n - 1) as nat, keep);
    let y = ys[n - 1];
    lemma_find_key(prev.0, y.0);
    if let Some(i) = find_key(prev.0, y.0) {
        lemma_merge_entries_lookup(xs, ys, (n - 1) as nat, keep, y.0);
        lemma_distinct_last_key_new(ys, n as int);
        lemma_lookup_own_key(ys, n - 1);
        assert(table_lookup(prev.0, y.0) == Some(prev.0[i].1));
        assert(table_lookup(ys.take(n - 1), y.0) is None);
        assert(table_lookup(xs, y.0) == Some(prev.0[i].1));
        assert(table_lookup(ys, y.0) == Some(y.1));
    }
}

/// When every key that both tables hold has values that merge without a
/// conflict, merging the tables meets no conflict either.
pub proof fn law_merge_tables_succeed(xs: Seq<(Seq<char>, Node)>, ys: Seq<(Seq<char>, Node)>, keep: bool)
    requires
        keys_distinct(ys),
        forall|k: Seq<char>|
            #![trigger table_lookup(xs, k), table_lookup(ys, k)]
            table_lookup(xs, k) is Some && table_lookup(ys, k) is Some ==> merge_node(
                table_lookup(xs, k)->0,
                table_lookup(ys, k)->0,
                keep,
            ).1 is None,
    ensures
        merge_node(Node::Table(xs), Node::Table(ys), keep).1 is None,
{
    lemma_merge_entries_succeed(xs, ys, ys.len(), keep);
}

/// Merging the first `n` items of `ys` into `xs` meets no conflict when
/// the items at every position both have merge without one.
proof fn lemma_merge_items_succeed(xs: Seq<Node>, ys: Seq<Node>, n: nat, keep: bool)
    requires
        n <= ys.len(),
        forall|i: int|
            0 <= i < xs.len() && i < ys.len() ==> #[trigger] merge_node(xs[i], ys[i], keep).1 is None,
    ensures
        merge_items(xs, ys, n, keep).1 is None,
    decreases n,
{
    if n == 0 {
        return;
    }
    lemma_merge_items_succeed(xs, ys, (n - 1) as nat, keep);
    lemma_merge_items_result(xs, ys, (n - 1) as nat, keep);
    let prev = merge_items(xs, ys, (n - 1) as nat, keep);
    if n - 1 < prev.0.len() {
        assert(prev.0[n - 1] == xs[n - 1]);
        assert(merge_node(xs[n - 1], ys[n - 1], keep).1 is None);
    }
}

/// When the items at every position that both arrays have merge without a
/// conflict, merging the arrays meets no conflict either.
pub proof fn law_merge_arrays_succeed(xs: Seq<Node>, ys: Seq<Node>, keep: bool)
    requires
        forall|i: int|
            0 <= i < xs.len() && i < ys.len() ==> #[trigger] merge_node(xs[i], ys[i], keep).1 is None,
    ensures
        merge_node(Node::Array(xs), Node::Array(ys), keep).1 is None,
{
    lemma_merge_items_succeed(xs, ys, ys.len(), keep);
}

/// Storing with `set` under a key that is a single index `i` of an array,
/// at most its length, inserts the value there: the array succeeds, grows
/// by one, holds the value at `i`, keeps the items before `i`, and moves
/// each item from `i` on one place up.  No item is replaced.
pub proof fn law_set_inserts_at_index(items: Seq<Node>, key: Seq<char>, i: int, v: Node)
    requires
        key_rest(key) is None,
        parse_index(key) == Ok::<int, IntErrorKind>(i),
        i <= items.len(),
    ensures
        node_set(Node::Array(items), key, Ok(v)) matches Ok(Node::Array(out)) && out.len()
            == items.len() + 1 && out[i] == v && (forall|j: int| 0 <= j < i ==> out[j] == items[j])
            && (forall|j: int| i <= j < items.len() ==> #[trigger] out[j + 1] == items[j]),
{
    assert(key_head(key) == key);
    lemma_parse_unsigned_range(key, usize::MAX as int);
    let out = items.insert(i, v);
    assert(node_set(Node::Array(items), key, Ok(v)) == Ok::<Node, Seq<char>>(Node::Array(out)));
    assert forall|j: int| i <= j < items.len() implies #[trigger] out[j + 1] == items[j] by {}
}

/// Storing a tree with `set_value` under a key that is a single index `i`
/// of an array, at most its length, inserts the tree there: the array
/// succeeds, grows by one, holds the tree at `i`, keeps the items before
/// `i`, and moves each item from `i` on one place up.  No item is replaced.
pub proof fn law_set_value_inserts_at_index(items: Seq<Node>, key: Seq<char>, i: int, v: Node)
    requires
        key_rest(key) is None,
        parse_index(key) == Ok::<int, IntErrorKind>(i),
        i <= items.len(),
    ensures
        node_set_value(Node::Array(items), key, v) matches Ok(Node::Array(out)) && out.len()
            == items.len() + 1 && out[i] == v && (forall|j: int| 0 <= j < i ==> out[j] == items[j])
            && (forall|j: int| i <= j < items.len() ==> #[trigger] out[j + 1] == items[j]),
{
    assert(key_head(key) == key);
    lemma_parse_unsigned_range(key, usize::MAX as int);
    let out = items.insert(i, v);
    assert(node_set_value(Node::Array(items), key, v) == Ok::<Node, Seq<char>>(Node::Array(out)));
    assert forall|j: int| i <= j < items.len() implies #[trigger] out[j + 1] == items[j] by {}
}

/// Storing under an index past the end of an array is refused and leaves
/// no result, whether by `set` or by `set_value`, and whatever follows the
/// index in the key.
pub proof fn law_set_past_end_refused(items: Seq<Node>, key: Seq<char>, i: int, v: Node, w: Result<Node, Seq<char>>)
    requires
        parse_index(key_head(key)) == Ok::<int, IntErrorKind>(i),
        i > items.len(),
    ensures
        node_set(Node::Array(items), key, w) is Err,
        node_set_value(Node::Array(items), key, v) is Err,
{
}

/// Reading an entry as text, under any type name, gives back its whole
/// text, whatever its length.
pub proof fn law_text_round_trip(t: Seq<char>, name: Seq<char>)
    ensures
        read_text(Node::Entry(t), name) == Ok::<Seq<char>, Seq<char>>(t),
{
}

/// A table made from a list of pairs holding well-formed values is
/// well-formed: a key given twice is held once, with the later value.
pub proof fn law_table_of_pairs_wf(ps: Seq<(Seq<char>, Node)>)
    requires
        forall|i: int| 0 <= i < ps.len() ==> #[trigger] node_wf(ps[i].1),
    ensures
        node_wf(Node::Table(table_of_pairs(ps))),
    decreases ps.len(),
{
    if ps.len() > 0 {
        let init = ps.drop_last();
        assert forall|i: int| 0 <= i < init.len() implies #[trigger] node_wf(init[i].1) by {
            assert(init[i] == ps[i]);
        }
        law_table_of_pairs_wf(init);
        assert(node_wf(ps[ps.len() - 1].1));
        lemma_table_insert_wf(table_of_pairs(init), ps.last().0, ps.last().1);
    } else {
        assert(node_wf(Node::Table(Seq::empty())));
    }
}

/// The decimal digits of a number are digits, and there is at least one.
proof fn lemma_decimal_digits(n: nat)
    ensures
        decimal(n).len() >= 1,
        forall|i: int| 0 <= i < decimal(n).len() ==> is_digit(#[trigger] decimal(n)[i]),
    decreases n,
{
    if n >= 10 {
        lemma_decimal_digits(n / 10);
        let d = decimal(n / 10);
        assert forall|i: int| 0 <= i < decimal(n).len() implies is_digit(#[trigger] decimal(n)[i]) by {
            if i < d.len() {
                assert(decimal(n)[i] == d[i]);
            }
        }
    }
}

/// Scanning the decimal digits of a number within the bound gives the
/// number back.
#[verifier::spinoff_prover]
proof fn lemma_scan_decimal(n: nat, bound: int, overflow: IntErrorKind)
    requires
        n <= bound,
    ensures
        scan_digits(decimal(n), bound, overflow) == Ok::<int, IntErrorKind>(n as int),
    decreases n,
{
    if n < 10 {
        let d = decimal(n);
        assert(d =~= seq![digit_char(n)]);
        assert(d.drop_last() =~= Seq::<char>::empty());
        assert(d.last() == digit_char(n));
        assert(is_digit(digit_char(n)));
        assert(digit_value(digit_char(n)) == n);
        assert(scan_digits(d.drop_last(), bound, overflow) == Ok::<int, IntErrorKind>(0));
    } else {
        let q = n / 10;
        let r = n % 10;
        assert(q * 10 + r == n && q <= n && r < 10);
        lemma_scan_decimal(q, bound, overflow);
        let d = decimal(n);
        assert(d == decimal(q).push(digit_char(r)));
        assert(d.drop_last() =~= decimal(q));
        assert(d.last() == digit_char(r));
        assert(is_digit(digit_char(r)));
        assert(digit_value(digit_char(r)) == r);
    }
}

/// Reading back an integer stored as an entry (written the way `to_string`
/// writes it) gives the same integer, read as any integer type whose range
/// holds it.
pub proof fn law_integer_round_trip(
    i: int,
    signed: bool,
    pos_bound: int,
    neg_bound: int,
    name: Seq<char>,
)
    requires
        -neg_bound <= i <= pos_bound,
        i < 0 ==> signed,
    ensures
        read_int(Node::Entry(signed_decimal(i)), signed, pos_bound, neg_bound, name) == Ok::<
            int,
            Seq<char>,
        >(i),
{
    if i < 0 {
        let m = (-i) as nat;
        lemma_decimal_digits(m);
        lemma_scan_decimal(m, neg_bound, IntErrorKind::NegOverflow);
        let s = signed_decimal(i);
        assert(s.skip(1) =~= decimal(m));
        assert(spec_parse_int(s, signed, pos_bound, neg_bound) == Ok::<int, IntErrorKind>(i));
    } else {
        let n = i as nat;
        lemma_decimal_digits(n);
        lemma_scan_decimal(n, pos_bound, IntErrorKind::PosOverflow);
        assert(is_digit(decimal(n)[0]));
        assert(spec_parse_int(decimal(n), signed, pos_bound, neg_bound) == Ok::<int, IntErrorKind>(i));
    }
}

/// Reading back a boolean stored as an entry gives the same boolean.
pub proof fn law_bool_round_trip(b: bool)
    ensures
        read_bool(Node::Entry(if b { "true"@ } else { "false"@ })) == Ok::<bool, Seq<char>>(b),
{
    reveal_strlit("true");
    reveal_strlit("false");
    assert("true"@ != "false"@) by {
        assert("true"@[0] != "false"@[0]);
    }
}

/// Reading back a character stored as an entry gives the same character.
pub proof fn law_char_round_trip(c: char)
    ensures
        read_char(Node::Entry(seq![c])) == Ok::<char, Seq<char>>(c),
{
}

/// A table after replacing the value of one key, or adding a pair with a new
/// key, reads every other key as before.
proof fn lemma_other_keys_kept(
    es: Seq<(Seq<char>, Node)>,
    es2: Seq<(Seq<char>, Node)>,
    h: Seq<char>,
    k2: Seq<char>,
    op: Lookup,
)
    requires
        key_head(k2) != h,
        ({
            ||| exists|i: int| 0 <= i < es.len() && es[i].0 == h && es2.len() == es.len() && es2[i].0
                == h && forall|j: int| 0 <= j < es.len() && j != i ==> es2[j] == es[j]
            ||| find_key(es, h) is None && exists|c: Node| es2 == es.push((h, c))
        }),
    ensures
        node_get(Node::Table(es2), k2, op) == node_get(Node::Table(es), k2, op),
{
    let h2 = key_head(k2);
    lemma_find_key(es, h2);
    lemma_find_key(es2, h2);
    if find_key(es, h) is None && exists|c: Node| es2 == es.push((h, c)) {
        let c = choose|c: Node| es2 == es.push((h, c));
        lemma_find_key_push(es, h, c, h2);
    } else {
        let i = choose|i: int|
            0 <= i < es.len() && es[i].0 == h && es2.len() == es.len() && es2[i].0 == h && forall|
                j: int,
            | 0 <= j < es.len() && j != i ==> es2[j] == es[j];
        assert forall|j: int| 0 <= j < es.len() implies es[j].0 == es2[j].0 by {
            if j != i {
                assert(es2[j] == es[j]);
            }
        }
        lemma_find_key_same_keys(es, es2, h2);
        if let Some(j) = find_key(es, h2) {
            assert(j != i);
            assert(es2[j] == es[j]);
        }
    }
}

/// Storing a value with `set` under a key of a table leaves every key with
/// another first segment as it was.
pub proof fn law_set_keeps_other_keys(
    es: Seq<(Seq<char>, Node)>,
    key: Seq<char>,
    v: Node,
    k2: Seq<char>,
    op: Lookup,
)
    requires
        key_head(k2) != key_head(key),
    ensures
        node_set(Node::Table(es), key, Ok(v)) matches Ok(n2) ==> node_get(n2, k2, op) == node_get(
            Node::Table(es),
            k2,
            op,
        ),
{
    let h = key_head(key);
    if let Ok(n2) = node_set(Node::Table(es), key, Ok(v)) {
        lemma_find_key(es, h);
        match key_rest(key) {
            None => {
                match find_key(es, h) {
                    Some(i) => {
                        assert(es[i].0 == h);
                    },
                    None => {},
                }
                lemma_other_keys_kept(es, table_insert(es, h, v), h, k2, op);
            },
            Some(r) => {
                match find_key(es, h) {
                    Some(i) => {
                        let c = node_set(es[i].1, r, Ok(v))->Ok_0;
                        lemma_other_keys_kept(es, es.update(i, (es[i].0, c)), h, k2, op);
                    },
                    None => {
                        let c = node_set(super::fresh_container(key_head(r)), r, Ok(v))->Ok_0;
                        lemma_other_keys_kept(es, es.push((h, c)), h, k2, op);
                    },
                }
            },
        }
    }
}

/// Storing a value with `set_value` under a key of a table leaves every key
/// with another first segment as it was.
pub proof fn law_set_value_keeps_other_keys(
    es: Seq<(Seq<char>, Node)>,
    key: Seq<char>,
    v: Node,
    k2: Seq<char>,
    op: Lookup,
)
    requires
        key_head(k2) != key_head(key),
    ensures
        node_set_value(Node::Table(es), key, v) matches Ok(n2) ==> node_get(n2, k2, op) == node_get(
            Node::Table(es),
            k2,
            op,
        ),
{
    let h = key_head(key);
    if let Ok(n2) = node_set_value(Node::Table(es), key, v) {
        lemma_find_key(es, h);
        match key_rest(key) {
            None => {
                lemma_other_keys_kept(es, table_insert(es, h, v), h, k2, op);
            },
            Some(r) => {
                match find_key(es, h) {
                    Some(i) => {
                        let c = node_set_value(es[i].1, key_head(r), v)->Ok_0;
                        lemma_other_keys_kept(es, es.update(i, (es[i].0, c)), h, k2, op);
                    },
                    None => {
                        let c = node_set_value(
                            super::fresh_container(key_head(r)),
                            key_without_first_dot(r),
                            v,
                        )->Ok_0;
                        lemma_other_keys_kept(es, es.push((h, c)), h, k2, op);
                    },
                }
            },
        }
    }
}

/// Merging a well-formed tree with itself gives it back, without error.
proof fn lemma_merge_node_self(a: Node, keep: bool)
    requires
        node_wf(a),
    ensures
        merge_node(a, a, keep) == (a, None::<Seq<char>>),
    decreases a, 0nat,
{
    match a {
        Node::Entry(_) => {},
        Node::Array(xs) => {
            lemma_merge_items_self(xs, xs.len(), keep);
        },
        Node::Table(xs) => {
            lemma_merge_entries_self(xs, xs.len(), keep);
        },
    }
}

/// Merging the first `n` items of a well-formed array into the array itself
/// leaves it as it is.
proof fn lemma_merge_items_self(xs: Seq<Node>, n: nat, keep: bool)
    requires
        node_wf(Node::Array(xs)),
        n <= xs.len(),
    ensures
        merge_items(xs, xs, n, keep) == (xs, None::<Seq<char>>),
    decreases xs, n,
{
    if n > 0 {
        lemma_merge_items_self(xs, (n - 1) as nat, keep);
        lemma_item_wf(xs, n - 1);
        lemma_merge_node_self(xs[n - 1], keep);
        assert(xs.update(n - 1, xs[n - 1]) =~= xs);
    }
}

/// Merging the first `n` pairs of a well-formed table into the table itself
/// leaves it as it is.
proof fn lemma_merge_entries_self(xs: Seq<(Seq<char>, Node)>, n: nat, keep: bool)
    requires
        node_wf(Node::Table(xs)),
        n <= xs.len(),
    ensures
        merge_entries(xs, xs, n, keep) == (xs, None::<Seq<char>>),
    decreases xs, n,
{
    if n > 0 {
        lemma_merge_entries_self(xs, (n - 1) as nat, keep);
        let k = xs[n - 1].0;
        assert(is_first_key(xs, k, n - 1));
        lemma_first_key_exists(xs, k, n - 1);
        super::lemma_first_key_unique(xs, k, n - 1, find_key(xs, k)->0);
        lemma_entry_wf(xs, n - 1);
        lemma_merge_node_self(xs[n - 1].1, keep);
        assert(xs.update(n - 1, (xs[n - 1].0, xs[n - 1].1)) =~= xs);
    }
}

/// Merging a tree with itself changes nothing and meets no conflict.
pub proof fn law_merge_self(a: Node, keep: bool)
    requires
        node_wf(a),
    ensures
        merge_node(a, a, keep) == (a, None::<Seq<char>>),
{
    lemma_merge_node_self(a, keep);
}

} // verus!
