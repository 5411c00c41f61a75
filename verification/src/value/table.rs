//! Tables: values stored under keys.
use vstd::prelude::*;

use super::{
    applied, entries_view, find_key, lemma_find_key, fresh_container, is_first_key, lemma_entries_view,
    lemma_first_key_unique, lemma_merge_entries_stop, merge_entries, merge_node, merged,
    missing_error, node_get, node_set, node_set_default, node_set_value, node_set_value_default,
    node_wf, outcome, table_insert, value_wf, Error, Lookup, Node, Value,
};
use super::laws::{
    law_merge_self, lemma_merge_entries_wf, lemma_table_insert_wf, lemma_table_push_wf, lemma_table_update_wf,
};
use crate::text::{lemma_key_parts_shorter, owned, split_key};
use vstd::std_specs::convert::FromSpecImpl;

verus! {

/// Values stored under keys, in storage order.
#[derive(Debug)]
pub struct Table(Vec<(String, Value)>);

impl View for Table {
    type V = Seq<(Seq<char>, Node)>;

    closed spec fn view(&self) -> Seq<(Seq<char>, Node)>
        decreases self,
    {
        entries_view(self.0@)
    }
}

impl Table {
    /// No key occurs twice in a table, as in a map from keys to values, and
    /// the same holds of every table inside it.  Every table keeps this.
    #[verifier::type_invariant]
    spec fn entries_wf(self) -> bool {
        node_wf(Node::Table(entries_view(self.0@)))
    }

    /// Every table is well formed.
    pub(crate) fn well_formed(&self)
        ensures
            node_wf(Node::Table(self@)),
    {
        proof {
            use_type_invariant(self);
        }
    }

    /// An empty table.
    pub fn new() -> (r: Table)
        ensures
            r@ == Seq::<(Seq<char>, Node)>::empty(),
    {
        Table(Vec::new())
    }

    /// The pairs of the table, in storage order.
    pub fn entries(&self) -> (r: &Vec<(String, Value)>)
        ensures
            entries_view(r@) == self@,
    {
        &self.0
    }

    /// The number of keys in the table.
    pub fn len(&self) -> (r: usize)
        ensures
            r == self@.len(),
    {
        proof {
            lemma_entries_view(self.0@);
        }
        self.0.len()
    }

    /// Whether the table holds no key.
    pub fn is_empty(&self) -> (r: bool)
        ensures
            r == (self@.len() == 0),
    {
        self.len() == 0
    }

    /// The first position that holds `key`.
    pub fn position(&self, key: &str) -> (r: Option<usize>)
        ensures
            match r {
                Some(i) => find_key(self@, key@) == Some(i as int) && i < self@.len(),
                None => find_key(self@, key@) is None,
            },
    {
        position_in(&self.0, key)
    }

    /// Takes the pairs out of the table, leaving it empty.
    fn take_pairs(&mut self) -> (r: Vec<(String, Value)>)
        ensures
            r@ == old(self).0@,
            node_wf(Node::Table(entries_view(r@))),
    {
        proof {
            use_type_invariant(&*self);
        }
        let mut es: Vec<(String, Value)> = Vec::new();
        std::mem::swap(&mut es, &mut self.0);
        es
    }

    /// Follows a dotted key whose first segment is a key of this table.
    pub fn lookup(&self, key: &str, op: Lookup) -> (r: Result<&Value, Error>)
        ensures
            match r {
                Ok(v) => node_get(Node::Table(self@), key@, op) == Ok::<Node, Seq<char>>(v@),
                Err(e) => node_get(Node::Table(self@), key@, op) == Err::<Node, Seq<char>>(e@),
            },
        decreases key@.len(), 0nat,
    {
        proof {
            lemma_entries_view(self.0@);
        }
        let (head, rest) = split_key(key);
        match self.position(head) {
            None => Err(missing_error(key)),
            Some(i) => match rest {
                None => Ok(&self.0[i].1),
                Some(r) => {
                    proof {
                        lemma_key_parts_shorter(key@);
                    }
                    self.0[i].1.lookup(r, op)
                },
            },
        }
    }

    /// The value under a dotted key.
    pub fn get_value(&self, key: &str) -> (r: Result<&Value, Error>)
        ensures
            match r {
                Ok(v) => node_get(Node::Table(self@), key@, Lookup::GetValue) == Ok::<
                    Node,
                    Seq<char>,
                >(v@),
                Err(e) => node_get(Node::Table(self@), key@, Lookup::GetValue) == Err::<
                    Node,
                    Seq<char>,
                >(e@),
            },
    {
        self.lookup(key, Lookup::GetValue)
    }
}

impl Table {
    /// Puts `value` under `key` (the whole key; dots are not followed):
    /// replaces what the key held, or adds the pair at the end.
    pub fn insert(&mut self, key: &str, value: Value)
        ensures
            final(self)@ == table_insert(old(self)@, key@, value@),
    {
        let mut es = self.take_pairs();
        insert_in(&mut es, key, value);
        self.0 = es;
    }

    /// Stores a value under a dotted key.  `value` is the outcome of turning
    /// the value to store into a tree; its error is reported only once the
    /// place to store it is reached.
    pub fn set(&mut self, key: &str, value: Result<Value, Error>) -> (r: Result<(), Error>)
        ensures
            applied(
                Node::Table(old(self)@),
                Node::Table(final(self)@),
                node_set(Node::Table(old(self)@), key@, outcome(value)),
                r,
            ),
        decreases key@.len(), 1nat,
    {
        let mut es = self.take_pairs();
        let r = set_in(&mut es, key, value);
        self.0 = es;
        r
    }

    /// Stores `value` under `key` unless the key already leads to a value.
    pub fn set_default(&mut self, key: &str, value: Result<Value, Error>) -> (r: Result<
        (),
        Error,
    >)
        ensures
            applied(
                Node::Table(old(self)@),
                Node::Table(final(self)@),
                node_set_default(Node::Table(old(self)@), key@, outcome(value)),
                r,
            ),
    {
        if self.get_value(key).is_err() {
            self.set(key, value)
        } else {
            Ok(())
        }
    }

    /// Stores a tree under a dotted key (see [`node_set_value`] for how the
    /// key is followed).
    pub fn set_value(&mut self, key: &str, value: Value) -> (r: Result<(), Error>)
        ensures
            applied(
                Node::Table(old(self)@),
                Node::Table(final(self)@),
                node_set_value(Node::Table(old(self)@), key@, value@),
                r,
            ),
        decreases key@.len(), 1nat,
    {
        let mut es = self.take_pairs();
        let r = set_value_in(&mut es, key, value);
        self.0 = es;
        r
    }

    /// Stores `value` under `key` with `set_value` unless the key already
    /// leads to a value.
    pub fn set_value_default(&mut self, key: &str, value: Value) -> (r: Result<(), Error>)
        ensures
            applied(
                Node::Table(old(self)@),
                Node::Table(final(self)@),
                node_set_value_default(Node::Table(old(self)@), key@, value@),
                r,
            ),
    {
        if self.get_value(key).is_err() {
            self.set_value(key, value)
        } else {
            Ok(())
        }
    }
}

impl Table {
    /// A copy of this table.
    pub fn copy(&self) -> (r: Table)
        ensures
            r@ == self@,
        decreases self,
    {
        proof {
            use_type_invariant(self);
        }
        let mut es: Vec<(String, Value)> = Vec::new();
        let mut i: usize = 0;
        while i < self.0.len()
            invariant
                i <= self.0.len(),
                es@.len() == i,
                forall|j: int|
                    0 <= j < i ==> #[trigger] es@[j].0@ == self.0@[j].0@ && es@[j].1.view_node()
                        == self.0@[j].1.view_node(),
            decreases self.0.len() - i,
        {
            proof {
                assert(decreases_to!(self => self.0@[i as int].1));
            }
            let k = self.0[i].0.clone();
            let c = self.0[i].1.copy();
            es.push((k, c));
            i = i + 1;
        }
        proof {
            lemma_entries_view(self.0@);
            lemma_entries_view(es@);
            assert(entries_view(es@) =~= entries_view(self.0@)) by {
                assert forall|j: int| 0 <= j < es@.len() implies entries_view(es@)[j]
                    == entries_view(self.0@)[j] by {
                    assert(es@[j].0@ == self.0@[j].0@);
                }
            }
        }
        Table(es)
    }

    /// Merges `table` into this one key by key, in `table`'s order (see
    /// [`merge_entries`]); `keep` keeps this table's entries.
    pub fn merge_with(&mut self, table: &Table, keep: bool) -> (r: Result<(), Error>)
        ensures
            merged(final(self)@, merge_entries(old(self)@, table@, table@.len(), keep), r),
        decreases table, 1nat,
    {
        let mut es = self.take_pairs();
        let r = merge_in(&mut es, table, keep);
        self.0 = es;
        r
    }

    /// Merges `table` into this one: entries take `table`'s text.  Merging
    /// a copy of a table into it succeeds and changes nothing.
    pub fn merge(&mut self, table: &Table) -> (r: Result<(), Error>)
        ensures
            merged(final(self)@, merge_entries(old(self)@, table@, table@.len(), false), r),
            old(self)@ == table@ ==> r is Ok && final(self)@ == old(self)@,
    {
        proof {
            use_type_invariant(table);
            law_merge_self(Node::Table(table@), false);
        }
        self.merge_with(table, false)
    }

    /// Merges `table` into this one as defaults: entries keep their text.
    /// Merging a copy of a table into it succeeds and changes nothing.
    pub fn merge_default(&mut self, table: &Table) -> (r: Result<(), Error>)
        ensures
            merged(final(self)@, merge_entries(old(self)@, table@, table@.len(), true), r),
            old(self)@ == table@ ==> r is Ok && final(self)@ == old(self)@,
    {
        proof {
            use_type_invariant(table);
            law_merge_self(Node::Table(table@), true);
        }
        self.merge_with(table, true)
    }

    /// Merges a value, which must be a table, into this one.
    pub fn merge_value(&mut self, value: &Value) -> (r: Result<(), Error>)
        ensures
            merged(Node::Table(final(self)@), merge_node(Node::Table(old(self)@), value@, false), r),
    {
        match value {
            Value::Entry(_) => Err(Error::custom("cannot merge entry with table")),
            Value::Array(_) => Err(Error::custom("cannot merge array with table")),
            Value::Table(table) => self.merge(table),
        }
    }

    /// Merges a value, which must be a table, into this one as defaults.
    pub fn merge_value_default(&mut self, value: &Value) -> (r: Result<(), Error>)
        ensures
            merged(Node::Table(final(self)@), merge_node(Node::Table(old(self)@), value@, true), r),
    {
        match value {
            Value::Entry(_) => Err(Error::custom("cannot merge entry with table")),
            Value::Array(_) => Err(Error::custom("cannot merge array with table")),
            Value::Table(table) => self.merge_default(table),
        }
    }
}

/// The first position of `es` that holds `key`.
fn position_in(es: &Vec<(String, Value)>, key: &str) -> (r: Option<usize>)
    ensures
    match r {
        Some(i) => find_key(entries_view(es@), key@) == Some(i as int) && i < es@.len(),
        None => find_key(entries_view(es@), key@) is None,
    },
{
    proof {
        lemma_entries_view(es@);
    }
    let k = owned(key);
    let mut i: usize = 0;
    while i < es.len()
        invariant
            k@ == key@,
            i <= es.len(),
            entries_view(es@).len() == es.len(),
            forall|j: int| 0 <= j < i ==> entries_view(es@)[j].0 != key@,
            forall|j: int| 0 <= j < es.len() ==> entries_view(es@)[j].0 == es@[j].0@,
        decreases es.len() - i,
    {
        if es[i].0 == k {
            proof {
                assert(is_first_key(entries_view(es@), key@, i as int));
                let c = choose|c: int| is_first_key(entries_view(es@), key@, c);
                lemma_first_key_unique(entries_view(es@), key@, i as int, c);
            }
            return Some(i);
        }
        i = i + 1;
    }
    proof {
        assert forall|c: int| !is_first_key(entries_view(es@), key@, c) by {}
    }
    None
}

/// Puts `value` under `key` in the pairs `es`.
fn insert_in(es: &mut Vec<(String, Value)>, key: &str, value: Value)
    requires
        node_wf(Node::Table(entries_view(old(es)@))),
    ensures
        entries_view(final(es)@) == table_insert(entries_view(old(es)@), key@, value@),
        node_wf(Node::Table(entries_view(final(es)@))),
{
    proof {
        lemma_entries_view(es@);
    }
    value_wf(&value);
    proof {
        lemma_table_insert_wf(entries_view(es@), key@, value@);
    }
    let ghost old_es = es@;
    match position_in(es, key) {
        Some(i) => {
            es[i] = (owned(key), value);
            proof {
                lemma_entries_view(es@);
                assert(entries_view(es@) =~= entries_view(old_es).update(i as int, (key@, value@)));
            }
        },
        None => {
            es.push((owned(key), value));
            proof {
                lemma_entries_view(es@);
                assert(entries_view(es@) =~= entries_view(old_es).push((key@, value@)));
            }
        },
    }
}

/// Stores a value under a dotted key in the pairs `es` (see `Table::set`).
fn set_in(es: &mut Vec<(String, Value)>, key: &str, value: Result<Value, Error>) -> (r: Result<(), Error>)
    requires
        node_wf(Node::Table(entries_view(old(es)@))),
    ensures
        applied(
            Node::Table(entries_view(old(es)@)),
            Node::Table(entries_view(final(es)@)),
            node_set(Node::Table(entries_view(old(es)@)), key@, outcome(value)),
            r,
        ),
        node_wf(Node::Table(entries_view(final(es)@))),
    decreases key@.len(), 0nat,
{
    proof {
        lemma_entries_view(es@);
    }
    let ghost old_es = es@;
    let (head, rest) = split_key(key);
    match rest {
        None => match value {
            Ok(v) => {
                insert_in(es, head, v);
                Ok(())
            },
            Err(e) => Err(e),
        },
        Some(r) => {
            proof {
                lemma_key_parts_shorter(key@);
            }
            match position_in(es, head) {
                Some(i) => {
                    let item = &mut es[i].1;
                    let res = match item {
                        Value::Entry(_) => Err(Error::custom("cannot insert into entry")),
                        Value::Array(a) => a.set(r, value),
                        Value::Table(t) => t.set(r, value),
                    };
                    value_wf(&es[i].1);
                    proof {
                        lemma_entries_view(es@);
                        lemma_table_update_wf(entries_view(old_es), i as int, es@[i as int].1@);
                        assert(entries_view(es@) =~= entries_view(old_es).update(
                            i as int,
                            (entries_view(old_es)[i as int].0, es@[i as int].1@),
                        ));
                        if res is Err {
                            assert(entries_view(es@) =~= entries_view(old_es));
                        }
                    }
                    res
                },
                None => {
                    let (peek, _) = split_key(r);
                    let mut c = Value::fresh_container(peek);
                    match c.set(r, value) {
                        Ok(()) => {
                            value_wf(&c);
                            es.push((owned(head), c));
                            proof {
                                lemma_entries_view(es@);
                                assert(entries_view(es@) =~= entries_view(old_es).push((head@, c@)));
                                lemma_table_push_wf(entries_view(old_es), head@, c@);
                            }
                            Ok(())
                        },
                        Err(e) => Err(e),
                    }
                },
            }
        },
    }
}

/// Stores a tree under a dotted key in the pairs `es` (see
/// `Table::set_value`).
fn set_value_in(es: &mut Vec<(String, Value)>, key: &str, value: Value) -> (r: Result<(), Error>)
    requires
        node_wf(Node::Table(entries_view(old(es)@))),
    ensures
        applied(
            Node::Table(entries_view(old(es)@)),
            Node::Table(entries_view(final(es)@)),
            node_set_value(Node::Table(entries_view(old(es)@)), key@, value@),
            r,
        ),
        node_wf(Node::Table(entries_view(final(es)@))),
    decreases key@.len(), 0nat,
{
    proof {
        lemma_entries_view(es@);
    }
    let ghost old_es = es@;
    let (head, rest) = split_key(key);
    match rest {
        None => {
            insert_in(es, head, value);
            Ok(())
        },
        Some(r) => {
            proof {
                lemma_key_parts_shorter(key@);
                lemma_key_parts_shorter(r@);
            }
            let (peek, after) = split_key(r);
            match position_in(es, head) {
                Some(i) => {
                    let res = es[i].1.set_value(peek, value);
                    value_wf(&es[i].1);
                    proof {
                        lemma_entries_view(es@);
                        lemma_table_update_wf(entries_view(old_es), i as int, es@[i as int].1@);
                        assert(entries_view(es@) =~= entries_view(old_es).update(
                            i as int,
                            (entries_view(old_es)[i as int].0, es@[i as int].1@),
                        ));
                        if res is Err {
                            assert(entries_view(es@) =~= entries_view(old_es));
                        }
                    }
                    res
                },
                None => {
                    let mut tail = owned(peek);
                    match after {
                        Some(a) => tail.append(a),
                        None => {},
                    }
                    let mut c = Value::fresh_container(peek);
                    match c.set_value(tail.as_str(), value) {
                        Ok(()) => {
                            value_wf(&c);
                            es.push((owned(head), c));
                            proof {
                                lemma_entries_view(es@);
                                assert(entries_view(es@) =~= entries_view(old_es).push((head@, c@)));
                                lemma_table_push_wf(entries_view(old_es), head@, c@);
                            }
                            Ok(())
                        },
                        Err(e) => Err(e),
                    }
                },
            }
        },
    }
}

/// Merges `table` into the pairs `es` (see `Table::merge_with`).
fn merge_in(es: &mut Vec<(String, Value)>, table: &Table, keep: bool) -> (r: Result<(), Error>)
    requires
        node_wf(Node::Table(entries_view(old(es)@))),
    ensures
        merged(entries_view(final(es)@), merge_entries(entries_view(old(es)@), table@, table@.len(), keep), r),
        node_wf(Node::Table(entries_view(final(es)@))),
    decreases table, 0nat,
{
    proof {
        use_type_invariant(table);
        lemma_entries_view(table.0@);
    }
    let ghost old_es = entries_view(es@);
    let ghost ys = table@;
    let mut i: usize = 0;
    while i < table.0.len()
        invariant
            i <= table.0.len(),
            ys == table@,
            old_es == entries_view(old(es)@),
            ys.len() == table.0.len(),
            forall|j: int|
                0 <= j < table.0.len() ==> #[trigger] ys[j] == (
                    table.0@[j].0@,
                    table.0@[j].1@,
                ),
            merge_entries(old_es, ys, i as nat, keep) == (entries_view(es@), None::<Seq<char>>),
            node_wf(Node::Table(old_es)),
            node_wf(Node::Table(ys)),
        decreases table.0.len() - i,
    {
        proof {
            lemma_entries_view(es@);
        }
        let ghost before = es@;
        let key = &table.0[i].0;
        match position_in(es, key.as_str()) {
            Some(j) => {
                proof {
                    assert(decreases_to!(table => table.0@[i as int].1));
                }
                let res = es[j].1.merge_with(&table.0[i].1, keep);
                proof {
                    lemma_entries_view(es@);
                    assert(entries_view(es@) =~= entries_view(before).update(
                        j as int,
                        (entries_view(before)[j as int].0, es@[j as int].1@),
                    ));
                }
                assert(entries_view(before)[j as int] == (before[j as int].0@, before[j as int].1@));
                assert(merge_entries(old_es, ys, (i + 1) as nat, keep) == (
                    entries_view(es@),
                    merge_node(before[j as int].1@, ys[i as int].1, keep).1,
                ));
                match res {
                    Ok(()) => {},
                    Err(e) => {
                        proof {
                            lemma_merge_entries_stop(old_es, ys, (i + 1) as nat, ys.len(), keep);
                            lemma_merge_entries_wf(old_es, ys, (i + 1) as nat, keep);
                        }
                        return Err(e);
                    },
                }
            },
            None => {
                let k = key.clone();
                let c = table.0[i].1.copy();
                es.push((k, c));
                proof {
                    lemma_entries_view(es@);
                    assert(entries_view(es@) =~= entries_view(before).push((k@, c@)));
                }
                assert(merge_entries(old_es, ys, (i + 1) as nat, keep) == (
                    entries_view(es@),
                    None::<Seq<char>>,
                ));
            },
        }
        i = i + 1;
    }
    proof {
        lemma_merge_entries_wf(old_es, ys, i as nat, keep);
    }
    Ok(())
}

impl Default for Table {
    fn default() -> (r: Table)
        ensures
            r@ == Seq::<(Seq<char>, Node)>::empty(),
    {
        Table::new()
    }
}

/// The pairs of a table made by putting each of `ps` in turn: a pair whose
/// key is already there replaces that key's value.
pub open spec fn table_of_pairs(ps: Seq<(Seq<char>, Node)>) -> Seq<(Seq<char>, Node)>
    decreases ps.len(),
{
    if ps.len() == 0 {
        Seq::empty()
    } else {
        table_insert(table_of_pairs(ps.drop_last()), ps.last().0, ps.last().1)
    }
}

impl From<Vec<(String, Value)>> for Table {
    /// The table holding the given pairs, put in in order: a later pair
    /// with a key already there replaces that key's value.
    fn from(value: Vec<(String, Value)>) -> (r: Table)
        ensures
            r@ == table_of_pairs(entries_view(value@)),
    {
        let ghost all = entries_view(value@);
        proof {
            lemma_entries_view(value@);
        }
        let mut rest = value;
        let n = rest.len();
        proof {
            assert(all.len() == n);
        }
        let mut table = Table::new();
        let mut i: usize = 0;
        while rest.len() > 0
            invariant
                i <= all.len(),
                all.len() <= usize::MAX,
                entries_view(rest@) == all.skip(i as int),
                table@ == table_of_pairs(all.take(i as int)),
            decreases rest.len(),
        {
            let ghost before = rest@;
            proof {
                lemma_entries_view(rest@);
                assert(entries_view(before).len() == before.len());
                assert(i < all.len());
                assert(entries_view(before)[0] == all[i as int]);
            }
            let (key, item) = rest.remove(0);
            proof {
                lemma_entries_view(rest@);
                assert forall|j: int| 0 <= j < rest@.len() implies entries_view(rest@)[j] == all.skip(
                    i + 1,
                )[j] by {
                    assert(rest@[j] == before[j + 1]);
                    assert(entries_view(before)[j + 1] == all.skip(i as int)[j + 1]);
                }
                assert(entries_view(rest@) =~= all.skip(i + 1));
                assert(all.take(i + 1).drop_last() =~= all.take(i as int));
                assert(all[i as int] == (key@, item@));
            }
            table.insert(key.as_str(), item);
            i = i + 1;
        }
        proof {
            assert(all.take(i as int) =~= all);
        }
        table
    }
}

impl FromSpecImpl<Vec<(String, Value)>> for Table {
    open spec fn obeys_from_spec() -> bool {
        false
    }

    closed spec fn from_spec(v: Vec<(String, Value)>) -> Table {
        Table(v)
    }
}

impl Clone for Table {
    fn clone(&self) -> (r: Table)
        ensures
            r@ == self@,
    {
        self.copy()
    }
}

} // verus!
