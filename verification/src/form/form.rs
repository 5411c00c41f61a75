//! A form: the state it is built from, and its fields and actions in the
//! order they were added.
use vstd::prelude::*;

use super::action::Action;
use super::field::Field;

verus! {

/// A form built from a state of type `S`.
#[derive(Debug)]
pub struct Form<S> {
    pub state: S,
    pub fields: Vec<Field>,
    pub actions: Vec<Action>,
}

impl<S> Form<S> {
    /// A form for `state`, with no fields and no actions yet.
    pub fn new(state: S) -> (r: Form<S>)
        ensures
            r.state == state,
            r.fields@.len() == 0,
            r.actions@.len() == 0,
    {
        Form { state, fields: Vec::new(), actions: Vec::new() }
    }

    /// The state the form is built from.
    pub fn state(&self) -> (r: &S)
        ensures
            *r == self.state,
    {
        &self.state
    }

    /// Adds a field after the others.  Gives back the form so that calls can
    /// be chained.
    pub fn insert(&mut self, field: Field) -> (r: &mut Form<S>)
        ensures
            r.fields@ == old(self).fields@.push(field),
            r.actions@ == old(self).actions@,
            r.state == old(self).state,
            *final(r) == *final(self),
    {
        self.fields.push(field);
        self
    }

    /// Adds an action after the others.  Gives back the form so that calls
    /// can be chained.
    pub fn action(&mut self, action: Action) -> (r: &mut Form<S>)
        ensures
            r.actions@ == old(self).actions@.push(action),
            r.fields@ == old(self).fields@,
            r.state == old(self).state,
            *final(r) == *final(self),
    {
        self.actions.push(action);
        self
    }
}

} // verus!
