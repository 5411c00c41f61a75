//! Arrays: sequences of values, addressed by index.
use vstd::prelude::*;

use super::{
    applied, fresh_container, int_error, value_wf, lemma_merge_items_stop, lemma_values_view, merge_items,
    merge_node, merged, missing_index_error, node_wf, node_get, node_set, node_set_default, node_set_value,
    node_set_value_default, outcome, values_view, Error, Lookup, Node, Value,
};
use super::laws::{law_merge_self, lemma_array_of_wf, lemma_array_wf, lemma_merge_items_wf};
use crate::text::{lemma_key_parts_shorter, owned, parse_usize, split_key};
use vstd::std_specs::convert::FromSpecImpl;

verus! {

/// A sequence of values.
#[derive(Debug)]
pub struct Array(Vec<Value>);

impl View for Array {
    type V = Seq<Node>;

    closed spec fn view(&self) -> Seq<Node>
        decreases self,
    {
        values_view(self.0@)
    }
}

impl Array {
    /// Every item of an array is well formed: no table inside it holds a
    /// key twice.
    #[verifier::type_invariant]
    spec fn items_wf(self) -> bool {
        node_wf(Node::Array(values_view(self.0@)))
    }

    /// An empty array.
    pub fn new() -> (r: Array)
        ensures
            r@ == Seq::<Node>::empty(),
    {
        Array(Vec::new())
    }

    /// The array holding the given items.
    pub closed spec fn of_items(items: Vec<Value>) -> Array {
        Array(items)
    }

    /// An array of the given items.
    pub fn from_items(items: Vec<Value>) -> (r: Array)
        ensures
            r@ == values_view(items@),
    {
        let mut i: usize = 0;
        while i < items.len()
            invariant
                i <= items.len(),
                forall|j: int| 0 <= j < i ==> #[trigger] node_wf(items@[j]@),
            decreases items.len() - i,
        {
            value_wf(&items[i]);
            i = i + 1;
        }
        proof {
            lemma_values_view(items@);
            assert forall|j: int| 0 <= j < values_view(items@).len() implies node_wf(
                #[trigger] values_view(items@)[j],
            ) by {
                assert(values_view(items@)[j] == items@[j]@);
            }
            lemma_array_of_wf(values_view(items@));
        }
        Array(items)
    }

    /// The items of the array.
    pub fn items(&self) -> (r: &Vec<Value>)
        ensures
            values_view(r@) == self@,
    {
        &self.0
    }

    /// The number of items.
    pub fn len(&self) -> (r: usize)
        ensures
            r == self@.len(),
    {
        proof {
            lemma_values_view(self.0@);
        }
        self.0.len()
    }

    /// Whether the array has no item.
    pub fn is_empty(&self) -> (r: bool)
        ensures
            r == (self@.len() == 0),
    {
        self.len() == 0
    }

    /// Every array is well formed.
    pub(crate) fn well_formed(&self)
        ensures
            node_wf(Node::Array(self@)),
    {
        proof {
            use_type_invariant(self);
        }
    }

    /// Takes the items out of the array, leaving it empty.
    fn take_items(&mut self) -> (r: Vec<Value>)
        ensures
            values_view(r@) == old(self)@,
            node_wf(Node::Array(values_view(r@))),
    {
        proof {
            use_type_invariant(&*self);
        }
        let mut items: Vec<Value> = Vec::new();
        std::mem::swap(&mut items, &mut self.0);
        items
    }

    /// Follows a dotted key whose first segment is an index of this array.
    pub fn lookup(&self, key: &str, op: Lookup) -> (r: Result<&Value, Error>)
        ensures
            match r {
                Ok(v) => node_get(Node::Array(self@), key@, op) == Ok::<Node, Seq<char>>(v@),
                Err(e) => node_get(Node::Array(self@), key@, op) == Err::<Node, Seq<char>>(e@),
            },
        decreases key@.len(), 0nat,
    {
        proof {
            lemma_values_view(self.0@);
        }
        let (head, rest) = split_key(key);
        match parse_usize(head) {
            Err(k) => Err(int_error(k)),
            Ok(idx) => {
                if idx < self.0.len() {
                    match rest {
                        None => Ok(&self.0[idx]),
                        Some(r) => {
                            proof {
                                crate::text::lemma_key_parts_shorter(key@);
                            }
                            self.0[idx].lookup(r, op)
                        },
                    }
                } else {
                    Err(missing_index_error(idx))
                }
            },
        }
    }

    /// The value under a dotted key whose first segment is an index.
    pub fn get_value(&self, key: &str) -> (r: Result<&Value, Error>)
        ensures
            match r {
                Ok(v) => node_get(Node::Array(self@), key@, Lookup::GetValue) == Ok::<
                    Node,
                    Seq<char>,
                >(v@),
                Err(e) => node_get(Node::Array(self@), key@, Lookup::GetValue) == Err::<
                    Node,
                    Seq<char>,
                >(e@),
            },
    {
        self.lookup(key, Lookup::GetValue)
    }
}

impl Array {
    /// Stores a value under a dotted key whose first segment is an index of
    /// this array; a final index inserts there, shifting what follows.
    /// `value` is the outcome of turning the value to store into a tree.
    pub fn set(&mut self, key: &str, value: Result<Value, Error>) -> (r: Result<(), Error>)
        ensures
            applied(
                Node::Array(old(self)@),
                Node::Array(final(self)@),
                node_set(Node::Array(old(self)@), key@, outcome(value)),
                r,
            ),
        decreases key@.len(), 1nat,
    {
        let mut items = self.take_items();
        let r = set_in(&mut items, key, value);
        self.0 = items;
        r
    }

    /// Stores `value` under `key` unless the key already leads to a value.
    pub fn set_default(&mut self, key: &str, value: Result<Value, Error>) -> (r: Result<
        (),
        Error,
    >)
        ensures
            applied(
                Node::Array(old(self)@),
                Node::Array(final(self)@),
                node_set_default(Node::Array(old(self)@), key@, outcome(value)),
                r,
            ),
    {
        if self.get_value(key).is_err() {
            self.set(key, value)
        } else {
            Ok(())
        }
    }

    /// Stores a tree under a dotted key whose first segment is an index of
    /// this array (see [`node_set_value`] for how the key is followed).
    pub fn set_value(&mut self, key: &str, value: Value) -> (r: Result<(), Error>)
        ensures
            applied(
                Node::Array(old(self)@),
                Node::Array(final(self)@),
                node_set_value(Node::Array(old(self)@), key@, value@),
                r,
            ),
        decreases key@.len(), 1nat,
    {
        let mut items = self.take_items();
        let r = set_value_in(&mut items, key, value);
        self.0 = items;
        r
    }

    /// Stores `value` under `key` with `set_value` unless the key already
    /// leads to a value.
    pub fn set_value_default(&mut self, key: &str, value: Value) -> (r: Result<(), Error>)
        ensures
            applied(
                Node::Array(old(self)@),
                Node::Array(final(self)@),
                node_set_value_default(Node::Array(old(self)@), key@, value@),
                r,
            ),
    {
        if self.get_value(key).is_err() {
            self.set_value(key, value)
        } else {
            Ok(())
        }
    }
}

/// Stores a value under a dotted key in the items `items` (see
/// `Array::set`).
fn set_in(items: &mut Vec<Value>, key: &str, value: Result<Value, Error>) -> (r: Result<(), Error>)
    requires
        node_wf(Node::Array(values_view(old(items)@))),
    ensures
        applied(
            Node::Array(values_view(old(items)@)),
            Node::Array(values_view(final(items)@)),
            node_set(Node::Array(values_view(old(items)@)), key@, outcome(value)),
            r,
        ),
        node_wf(Node::Array(values_view(final(items)@))),
    decreases key@.len(), 0nat,
{
    proof {
        lemma_values_view(items@);
    }
    let ghost old_items = items@;
    let (head, rest) = split_key(key);
    let idx = match parse_usize(head) {
        Err(k) => {
            return Err(int_error(k));
        },
        Ok(i) => i,
    };
    if idx > items.len() {
        return Err(Error::custom("cannot insert item after index"));
    }
    match rest {
        None => match value {
            Ok(v) => {
                value_wf(&v);
                items.insert(idx, v);
                proof {
                    lemma_values_view(items@);
                    assert(values_view(items@) =~= values_view(old_items).insert(idx as int, v@));
                    lemma_array_wf(values_view(old_items), idx as int, v@);
                }
                Ok(())
            },
            Err(e) => Err(e),
        },
        Some(r) => {
            proof {
                lemma_key_parts_shorter(key@);
            }
            if idx < items.len() {
                let item = &mut items[idx];
                let res = match item {
                    Value::Entry(_) => Err(Error::custom("cannot insert into entry")),
                    Value::Array(a) => a.set(r, value),
                    Value::Table(t) => t.set(r, value),
                };
                value_wf(&items[idx]);
                proof {
                    lemma_values_view(items@);
                    assert(values_view(items@) =~= values_view(old_items).update(
                        idx as int,
                        items@[idx as int]@,
                    ));
                    lemma_array_wf(values_view(old_items), idx as int, items@[idx as int]@);
                    if res is Err {
                        assert(values_view(items@) =~= values_view(old_items));
                    }
                }
                res
            } else {
                let (peek, _) = split_key(r);
                let mut c = Value::fresh_container(peek);
                match c.set(r, value) {
                    Ok(()) => {
                        value_wf(&c);
                        items.push(c);
                        proof {
                            lemma_values_view(items@);
                            assert(values_view(items@) =~= values_view(old_items).push(c@));
                            lemma_array_wf(values_view(old_items), idx as int, c@);
                        }
                        Ok(())
                    },
                    Err(e) => Err(e),
                }
            }
        },
    }
}

/// Stores a tree under a dotted key in the items `items` (see
/// `Array::set_value`).
fn set_value_in(items: &mut Vec<Value>, key: &str, value: Value) -> (r: Result<(), Error>)
    requires
        node_wf(Node::Array(values_view(old(items)@))),
    ensures
        applied(
            Node::Array(values_view(old(items)@)),
            Node::Array(values_view(final(items)@)),
            node_set_value(Node::Array(values_view(old(items)@)), key@, value@),
            r,
        ),
        node_wf(Node::Array(values_view(final(items)@))),
    decreases key@.len(), 0nat,
{
    proof {
        lemma_values_view(items@);
    }
    let ghost old_items = items@;
    let (head, rest) = split_key(key);
    let idx = match parse_usize(head) {
        Err(k) => {
            return Err(int_error(k));
        },
        Ok(i) => i,
    };
    if idx > items.len() {
        return Err(Error::custom("cannot insert item after index"));
    }
    match rest {
        None => {
            value_wf(&value);
            items.insert(idx, value);
            proof {
                lemma_values_view(items@);
                assert(values_view(items@) =~= values_view(old_items).insert(idx as int, value@));
                lemma_array_wf(values_view(old_items), idx as int, value@);
            }
            Ok(())
        },
        Some(r) => {
            proof {
                lemma_key_parts_shorter(key@);
                lemma_key_parts_shorter(r@);
            }
            let (peek, after) = split_key(r);
            if idx < items.len() {
                let res = items[idx].set_value(peek, value);
                value_wf(&items[idx]);
                proof {
                    lemma_values_view(items@);
                    assert(values_view(items@) =~= values_view(old_items).update(
                        idx as int,
                        items@[idx as int]@,
                    ));
                    lemma_array_wf(values_view(old_items), idx as int, items@[idx as int]@);
                    if res is Err {
                        assert(values_view(items@) =~= values_view(old_items));
                    }
                }
                res
            } else {
                let mut tail = owned(peek);
                match after {
                    Some(a) => tail.append(a),
                    None => {},
                }
                let mut c = Value::fresh_container(peek);
                match c.set_value(tail.as_str(), value) {
                    Ok(()) => {
                        value_wf(&c);
                        items.push(c);
                        proof {
                            lemma_values_view(items@);
                            assert(values_view(items@) =~= values_view(old_items).push(c@));
                            lemma_array_wf(values_view(old_items), idx as int, c@);
                        }
                        Ok(())
                    },
                    Err(e) => Err(e),
                }
            }
        },
    }
}

impl Array {
    /// A copy of this array.
    pub fn copy(&self) -> (r: Array)
        ensures
            r@ == self@,
        decreases self,
    {
        proof {
            use_type_invariant(self);
        }
        let mut items: Vec<Value> = Vec::new();
        let mut i: usize = 0;
        while i < self.0.len()
            invariant
                i <= self.0.len(),
                items@.len() == i,
                forall|j: int|
                    0 <= j < i ==> #[trigger] items@[j].view_node() == self.0@[j].view_node(),
            decreases self.0.len() - i,
        {
            proof {
                assert(decreases_to!(self => self.0@[i as int]));
            }
            let c = self.0[i].copy();
            items.push(c);
            i = i + 1;
        }
        proof {
            lemma_values_view(self.0@);
            lemma_values_view(items@);
            assert(values_view(items@) =~= values_view(self.0@)) by {
                assert forall|j: int| 0 <= j < items@.len() implies values_view(items@)[j]
                    == values_view(self.0@)[j] by {
                    assert(items@[j].view_node() == self.0@[j].view_node());
                }
            }
        }
        Array(items)
    }

    /// Merges `array` into this one position by position (see
    /// [`merge_items`]); `keep` keeps this array's entries.
    pub fn merge_with(&mut self, array: &Array, keep: bool) -> (r: Result<(), Error>)
        ensures
            merged(final(self)@, merge_items(old(self)@, array@, array@.len(), keep), r),
        decreases array, 1nat,
    {
        let mut items = self.take_items();
        let r = merge_in(&mut items, array, keep);
        self.0 = items;
        r
    }

    /// Merges `array` into this one: entries take `array`'s text.  Merging
    /// a copy of an array into it succeeds and changes nothing.
    pub fn merge(&mut self, array: &Array) -> (r: Result<(), Error>)
        ensures
            merged(final(self)@, merge_items(old(self)@, array@, array@.len(), false), r),
            old(self)@ == array@ ==> r is Ok && final(self)@ == old(self)@,
    {
        proof {
            use_type_invariant(array);
            law_merge_self(Node::Array(array@), false);
        }
        self.merge_with(array, false)
    }

    /// Merges `array` into this one as defaults: entries keep their text.
    /// Merging a copy of an array into it succeeds and changes nothing.
    pub fn merge_default(&mut self, array: &Array) -> (r: Result<(), Error>)
        ensures
            merged(final(self)@, merge_items(old(self)@, array@, array@.len(), true), r),
            old(self)@ == array@ ==> r is Ok && final(self)@ == old(self)@,
    {
        proof {
            use_type_invariant(array);
            law_merge_self(Node::Array(array@), true);
        }
        self.merge_with(array, true)
    }

    /// Merges a value, which must be an array, into this one.
    pub fn merge_value(&mut self, value: &Value) -> (r: Result<(), Error>)
        ensures
            merged(Node::Array(final(self)@), merge_node(Node::Array(old(self)@), value@, false), r),
    {
        match value {
            Value::Entry(_) => Err(Error::custom("cannot merge entry with array")),
            Value::Table(_) => Err(Error::custom("cannot merge table with array")),
            Value::Array(array) => self.merge(array),
        }
    }

    /// Merges a value, which must be an array, into this one as defaults.
    pub fn merge_value_default(&mut self, value: &Value) -> (r: Result<(), Error>)
        ensures
            merged(Node::Array(final(self)@), merge_node(Node::Array(old(self)@), value@, true), r),
    {
        match value {
            Value::Entry(_) => Err(Error::custom("cannot merge entry with array")),
            Value::Table(_) => Err(Error::custom("cannot merge table with array")),
            Value::Array(array) => self.merge_default(array),
        }
    }
}

/// Merges `array` into the items `items` (see `Array::merge_with`).
fn merge_in(items: &mut Vec<Value>, array: &Array, keep: bool) -> (r: Result<(), Error>)
    requires
        node_wf(Node::Array(values_view(old(items)@))),
    ensures
        merged(
            values_view(final(items)@),
            merge_items(values_view(old(items)@), array@, array@.len(), keep),
            r,
        ),
        node_wf(Node::Array(values_view(final(items)@))),
    decreases array, 0nat,
{
    proof {
        use_type_invariant(array);
        lemma_values_view(array.0@);
    }
    let ghost old_items = values_view(items@);
    let ghost ys = array@;
    let mut i: usize = 0;
    while i < array.0.len()
        invariant
            i <= array.0.len(),
            ys == array@,
            old_items == values_view(old(items)@),
            node_wf(Node::Array(old_items)),
            node_wf(Node::Array(ys)),
            ys.len() == array.0.len(),
            forall|j: int| 0 <= j < array.0.len() ==> #[trigger] ys[j] == array.0@[j]@,
            merge_items(old_items, ys, i as nat, keep) == (values_view(items@), None::<Seq<char>>),
        decreases array.0.len() - i,
    {
        proof {
            lemma_values_view(items@);
        }
        let ghost before = items@;
        if i < items.len() {
            proof {
                assert(decreases_to!(array => array.0@[i as int]));
            }
            let res = items[i].merge_with(&array.0[i], keep);
            proof {
                lemma_values_view(items@);
                assert(values_view(items@) =~= values_view(before).update(i as int, items@[i as int]@));
            }
            assert(values_view(before)[i as int] == before[i as int]@);
            assert(merge_items(old_items, ys, (i + 1) as nat, keep) == (
                values_view(items@),
                merge_node(before[i as int]@, ys[i as int], keep).1,
            ));
            match res {
                Ok(()) => {},
                Err(e) => {
                    proof {
                        lemma_merge_items_stop(old_items, ys, (i + 1) as nat, ys.len(), keep);
                        lemma_merge_items_wf(old_items, ys, (i + 1) as nat, keep);
                        lemma_merged_items_wf(old_items, ys, (i + 1) as nat, keep, values_view(items@));
                    }
                    return Err(e);
                },
            }
        } else {
            let c = array.0[i].copy();
            items.push(c);
            proof {
                lemma_values_view(items@);
                assert(values_view(items@) =~= values_view(before).push(c@));
            }
            assert(merge_items(old_items, ys, (i + 1) as nat, keep) == (
                values_view(items@),
                None::<Seq<char>>,
            ));
        }
        i = i + 1;
    }
    proof {
        lemma_merge_items_wf(old_items, ys, i as nat, keep);
        lemma_merged_items_wf(old_items, ys, i as nat, keep, values_view(items@));
    }
    Ok(())
}

/// What a merge of items gives is well formed when its items are.
proof fn lemma_merged_items_wf(xs: Seq<Node>, ys: Seq<Node>, n: nat, keep: bool, out: Seq<Node>)
    requires
        out == merge_items(xs, ys, n, keep).0,
        forall|j: int|
            0 <= j < merge_items(xs, ys, n, keep).0.len() ==> #[trigger] node_wf(
                merge_items(xs, ys, n, keep).0[j],
            ),
    ensures
        node_wf(Node::Array(out)),
{
    assert forall|j: int| 0 <= j < out.len() implies node_wf(#[trigger] out[j]) by {
        assert(out[j] == merge_items(xs, ys, n, keep).0[j]);
    }
    lemma_array_of_wf(out);
}

impl Default for Array {
    fn default() -> (r: Array)
        ensures
            r@ == Seq::<Node>::empty(),
    {
        Array::new()
    }
}

impl From<Vec<Value>> for Array {
    fn from(value: Vec<Value>) -> (r: Array)
        ensures
            r@ == values_view(value@),
    {
        Array::from_items(value)
    }
}

impl FromSpecImpl<Vec<Value>> for Array {
    open spec fn obeys_from_spec() -> bool {
        false
    }

    closed spec fn from_spec(v: Vec<Value>) -> Array {
        Array::of_items(v)
    }
}

impl Clone for Array {
    fn clone(&self) -> (r: Array)
        ensures
            r@ == self@,
    {
        self.copy()
    }
}

} // verus!
