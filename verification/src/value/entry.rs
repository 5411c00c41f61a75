//! Entries: the leaves of the configuration tree, holding text.
use vstd::prelude::*;

use super::{merge_node, merged, Error, Node, Value};
use crate::text::{decimal, owned, push_char, signed_decimal, signed_text, unsigned_text};
use vstd::std_specs::convert::FromSpecImpl;

verus! {

/// A leaf of the configuration tree.
#[derive(Debug, PartialEq, Eq)]
pub struct Entry(pub String);

impl View for Entry {
    type V = Seq<char>;

    open spec fn view(&self) -> Seq<char> {
        self.0@
    }
}

impl Entry {
    /// An empty entry.
    pub fn new() -> (r: Entry)
        ensures
            r@ == Seq::<char>::empty(),
    {
        Entry(String::new())
    }

    /// Takes the text of `entry`.
    pub fn merge(&mut self, entry: &Entry) -> (r: Result<(), Error>)
        ensures
            final(self)@ == entry@,
            r is Ok,
    {
        self.0 = entry.0.clone();
        Ok(())
    }

    /// Takes the text of a value, which must be an entry.
    pub fn merge_value(&mut self, value: &Value) -> (r: Result<(), Error>)
        ensures
            merged(Node::Entry(final(self)@), merge_node(Node::Entry(old(self)@), value@, false), r),
    {
        match value {
            Value::Array(_) => Err(Error::custom("cannot merge array with entry")),
            Value::Table(_) => Err(Error::custom("cannot merge table with entry")),
            Value::Entry(entry) => self.merge(entry),
        }
    }
}

/// `to_string` of a character.
fn char_text(c: char) -> (r: String)
    ensures
        r@ == seq![c],
{
    let mut s = String::new();
    push_char(&mut s, c);
    s
}

impl Default for Entry {
    fn default() -> (r: Entry)
        ensures
            r@ == Seq::<char>::empty(),
    {
        Entry::new()
    }
}

impl From<bool> for Entry {
    fn from(value: bool) -> (r: Entry)
        ensures
            r@ == if value { "true"@ } else { "false"@ },
    {
        Entry(if value { owned("true") } else { owned("false") })
    }
}

impl FromSpecImpl<bool> for Entry {
    open spec fn obeys_from_spec() -> bool {
        false
    }

    open spec fn from_spec(v: bool) -> Entry {
        choose|e: Entry| #[trigger] e@ == if v { "true"@ } else { "false"@ }
    }
}

impl From<i8> for Entry {
    fn from(value: i8) -> (r: Entry)
        ensures
            r@ == signed_decimal(value as int),
    {
        Entry(signed_text(value as i128))
    }
}

impl FromSpecImpl<i8> for Entry {
    open spec fn obeys_from_spec() -> bool {
        false
    }

    open spec fn from_spec(v: i8) -> Entry {
        choose|e: Entry| #[trigger] e@ == signed_decimal(v as int)
    }
}

impl From<i16> for Entry {
    fn from(value: i16) -> (r: Entry)
        ensures
            r@ == signed_decimal(value as int),
    {
        Entry(signed_text(value as i128))
    }
}

impl FromSpecImpl<i16> for Entry {
    open spec fn obeys_from_spec() -> bool {
        false
    }

    open spec fn from_spec(v: i16) -> Entry {
        choose|e: Entry| #[trigger] e@ == signed_decimal(v as int)
    }
}

impl From<i32> for Entry {
    fn from(value: i32) -> (r: Entry)
        ensures
            r@ == signed_decimal(value as int),
    {
        Entry(signed_text(value as i128))
    }
}

impl FromSpecImpl<i32> for Entry {
    open spec fn obeys_from_spec() -> bool {
        false
    }

    open spec fn from_spec(v: i32) -> Entry {
        choose|e: Entry| #[trigger] e@ == signed_decimal(v as int)
    }
}

impl From<i64> for Entry {
    fn from(value: i64) -> (r: Entry)
        ensures
            r@ == signed_decimal(value as int),
    {
        Entry(signed_text(value as i128))
    }
}

impl FromSpecImpl<i64> for Entry {
    open spec fn obeys_from_spec() -> bool {
        false
    }

    open spec fn from_spec(v: i64) -> Entry {
        choose|e: Entry| #[trigger] e@ == signed_decimal(v as int)
    }
}

impl From<i128> for Entry {
    fn from(value: i128) -> (r: Entry)
        ensures
            r@ == signed_decimal(value as int),
    {
        Entry(signed_text(value as i128))
    }
}

impl FromSpecImpl<i128> for Entry {
    open spec fn obeys_from_spec() -> bool {
        false
    }

    open spec fn from_spec(v: i128) -> Entry {
        choose|e: Entry| #[trigger] e@ == signed_decimal(v as int)
    }
}

impl From<u8> for Entry {
    fn from(value: u8) -> (r: Entry)
        ensures
            r@ == decimal(value as nat),
    {
        Entry(unsigned_text(value as u128))
    }
}

impl FromSpecImpl<u8> for Entry {
    open spec fn obeys_from_spec() -> bool {
        false
    }

    open spec fn from_spec(v: u8) -> Entry {
        choose|e: Entry| #[trigger] e@ == decimal(v as nat)
    }
}

impl From<u16> for Entry {
    fn from(value: u16) -> (r: Entry)
        ensures
            r@ == decimal(value as nat),
    {
        Entry(unsigned_text(value as u128))
    }
}

impl FromSpecImpl<u16> for Entry {
    open spec fn obeys_from_spec() -> bool {
        false
    }

    open spec fn from_spec(v: u16) -> Entry {
        choose|e: Entry| #[trigger] e@ == decimal(v as nat)
    }
}

impl From<u32> for Entry {
    fn from(value: u32) -> (r: Entry)
        ensures
            r@ == decimal(value as nat),
    {
        Entry(unsigned_text(value as u128))
    }
}

impl FromSpecImpl<u32> for Entry {
    open spec fn obeys_from_spec() -> bool {
        false
    }

    open spec fn from_spec(v: u32) -> Entry {
        choose|e: Entry| #[trigger] e@ == decimal(v as nat)
    }
}

impl From<u64> for Entry {
    fn from(value: u64) -> (r: Entry)
        ensures
            r@ == decimal(value as nat),
    {
        Entry(unsigned_text(value as u128))
    }
}

impl FromSpecImpl<u64> for Entry {
    open spec fn obeys_from_spec() -> bool {
        false
    }

    open spec fn from_spec(v: u64) -> Entry {
        choose|e: Entry| #[trigger] e@ == decimal(v as nat)
    }
}

impl From<u128> for Entry {
    fn from(value: u128) -> (r: Entry)
        ensures
            r@ == decimal(value as nat),
    {
        Entry(unsigned_text(value as u128))
    }
}

impl FromSpecImpl<u128> for Entry {
    open spec fn obeys_from_spec() -> bool {
        false
    }

    open spec fn from_spec(v: u128) -> Entry {
        choose|e: Entry| #[trigger] e@ == decimal(v as nat)
    }
}

impl From<char> for Entry {
    fn from(value: char) -> (r: Entry)
        ensures
            r@ == seq![value],
    {
        Entry(char_text(value))
    }
}

impl FromSpecImpl<char> for Entry {
    open spec fn obeys_from_spec() -> bool {
        false
    }

    open spec fn from_spec(v: char) -> Entry {
        choose|e: Entry| #[trigger] e@ == seq![v]
    }
}

impl From<&str> for Entry {
    fn from(value: &str) -> (r: Entry)
        ensures
            r@ == value@,
    {
        Entry(owned(value))
    }
}

impl FromSpecImpl<&str> for Entry {
    open spec fn obeys_from_spec() -> bool {
        false
    }

    open spec fn from_spec(v: &str) -> Entry {
        choose|e: Entry| #[trigger] e@ == v@
    }
}

impl From<String> for Entry {
    fn from(value: String) -> (r: Entry)
        ensures
            r@ == value@,
    {
        Entry(value)
    }
}

impl FromSpecImpl<String> for Entry {
    open spec fn obeys_from_spec() -> bool {
        false
    }

    open spec fn from_spec(v: String) -> Entry {
        choose|e: Entry| #[trigger] e@ == v@
    }
}

impl Clone for Entry {
    fn clone(&self) -> (r: Entry)
        ensures
            r@ == self@,
    {
        Entry(self.0.clone())
    }
}

} // verus!
