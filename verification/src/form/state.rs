//! The state a form is built from: JSON data, usually the fields of a
//! submitted form.
use vstd::prelude::*;

use crate::text::owned;
use crate::value::Error;
use serde_json::Value as JsonValue;

verus! {

/// `serde_json::Value`, a JSON value; its contents are not looked into here.
#[verifier::external_type_specification]
#[verifier::external_body]
pub struct ExJsonValue(JsonValue);

/// A member of a form state object: a JSON string, held as its text, or a
/// JSON value carried as it is (read as text, it gives what serde_json
/// reads from it).
#[derive(Debug)]
pub enum Member {
    Text(String),
    Other(JsonValue),
}

/// The state of a form: no state, a JSON object (its members in order), or
/// some other JSON value.
#[derive(Debug)]
pub enum FormState {
    Null,
    Object(Vec<(String, Member)>),
    Other(JsonValue),
}

/// `form state does not contain key <key>`.
pub open spec fn missing_state_message(key: Seq<char>) -> Seq<char> {
    "form state does not contain key "@ + key
}

/// `i` is the first position of `members` whose name is `key`.
pub open spec fn is_first_member(members: Seq<(String, Member)>, key: Seq<char>, i: int) -> bool {
    &&& 0 <= i < members.len()
    &&& members[i].0@ == key
    &&& forall|j: int| 0 <= j < i ==> members[j].0@ != key
}

/// The first position of `members` whose name is `key`, if any.
pub open spec fn first_member(members: Seq<(String, Member)>, key: Seq<char>) -> Option<int> {
    if exists|i: int| is_first_member(members, key, i) {
        Some(choose|i: int| is_first_member(members, key, i))
    } else {
        None
    }
}

impl FormState {
    /// No state.
    pub fn new() -> (r: FormState)
        ensures
            r is Null,
    {
        FormState::Null
    }

    /// The member of the state object called `key` (the first, should there
    /// be several); an error when the state is not an object or has no such
    /// member.
    pub fn get(&self, key: &str) -> (r: Result<&Member, Error>)
        ensures
            match self {
                FormState::Object(members) => match first_member(members@, key@) {
                    Some(i) => r matches Ok(v) && *v == members@[i].1,
                    None => r matches Err(e) && e@ == missing_state_message(key@),
                },
                _ => r matches Err(e) && e@ == missing_state_message(key@),
            },
    {
        match self {
            FormState::Object(members) => {
                let k = owned(key);
                let mut i: usize = 0;
                while i < members.len()
                    invariant
                        *self == FormState::Object(*members),
                        k@ == key@,
                        i <= members@.len(),
                        forall|j: int| 0 <= j < i ==> members@[j].0@ != key@,
                    decreases members.len() - i,
                {
                    if members[i].0 == k {
                        proof {
                            assert(is_first_member(members@, key@, i as int));
                            let c = choose|c: int| is_first_member(members@, key@, c);
                            assert(c == i);
                        }
                        return Ok(&members[i].1);
                    }
                    i = i + 1;
                }
                proof {
                    assert forall|c: int| !is_first_member(members@, key@, c) by {}
                }
                Err(missing_state(key))
            },
            _ => Err(missing_state(key)),
        }
    }
}

fn missing_state(key: &str) -> (r: Error)
    ensures
        r@ == missing_state_message(key@),
{
    let mut s = owned("form state does not contain key ");
    s.append(key);
    Error(s)
}

impl Default for FormState {
    fn default() -> (r: FormState)
        ensures
            r is Null,
    {
        FormState::Null
    }
}

} // verus!
