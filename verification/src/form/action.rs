//! Form actions: the buttons of a form.
use vstd::prelude::*;

use crate::text::owned;
use vstd::std_specs::convert::FromSpecImpl;

verus! {

/// An action of a form.
#[derive(Debug)]
pub enum Action {
    Submit(Submit),
    Cancel(Cancel),
}

/// A button that submits the form to `url`.
#[derive(Debug)]
pub struct Submit {
    pub name: Option<String>,
    pub label: String,
    pub url: String,
    pub weight: i32,
}

/// A button that leaves the form for `url`.
#[derive(Debug)]
pub struct Cancel {
    pub label: String,
    pub url: String,
    pub weight: i32,
}

/// A submit button for `url`.
pub fn submit(url: &str) -> (r: Submit)
    ensures
        r.name is None,
        r.label@ == "Submit"@,
        r.url@ == url@,
        r.weight == 0,
{
    Submit::new(url)
}

/// A cancel button for `url`.
pub fn cancel(url: &str) -> (r: Cancel)
    ensures
        r.label@ == "Cancel"@,
        r.url@ == url@,
        r.weight == 0,
{
    Cancel::new(url)
}

impl Submit {
    /// A submit button for `url`, labelled "Submit", with no name and
    /// weight zero.
    pub fn new(url: &str) -> (r: Submit)
        ensures
            r.name is None,
            r.label@ == "Submit"@,
            r.url@ == url@,
            r.weight == 0,
    {
        Submit { name: None, label: owned("Submit"), url: owned(url), weight: 0 }
    }

    /// The button with the given name.
    pub fn name(self, value: &str) -> (r: Submit)
        ensures
            r.name matches Some(n) && n@ == value@,
            r.label == self.label,
            r.url == self.url,
            r.weight == self.weight,
    {
        Submit { name: Some(owned(value)), ..self }
    }

    /// The button with the given label.
    pub fn label(self, label: &str) -> (r: Submit)
        ensures
            r.name == self.name,
            r.label@ == label@,
            r.url == self.url,
            r.weight == self.weight,
    {
        Submit { label: owned(label), ..self }
    }

    /// The button with the given weight.
    pub fn weight(self, weight: i32) -> (r: Submit)
        ensures
            r.name == self.name,
            r.label == self.label,
            r.url == self.url,
            r.weight == weight,
    {
        Submit { weight, ..self }
    }
}

impl Cancel {
    /// A cancel button for `url`, labelled "Cancel", with weight zero.
    pub fn new(url: &str) -> (r: Cancel)
        ensures
            r.label@ == "Cancel"@,
            r.url@ == url@,
            r.weight == 0,
    {
        Cancel { label: owned("Cancel"), url: owned(url), weight: 0 }
    }

    /// The button with the given label.
    pub fn label(self, label: &str) -> (r: Cancel)
        ensures
            r.label@ == label@,
            r.url == self.url,
            r.weight == self.weight,
    {
        Cancel { label: owned(label), ..self }
    }

    /// The button with the given weight.
    pub fn weight(self, weight: i32) -> (r: Cancel)
        ensures
            r.label == self.label,
            r.url == self.url,
            r.weight == weight,
    {
        Cancel { weight, ..self }
    }
}

impl From<Submit> for Action {
    fn from(action: Submit) -> (r: Action)
        ensures
            r == Action::Submit(action),
    {
        Action::Submit(action)
    }
}

impl FromSpecImpl<Submit> for Action {
    open spec fn obeys_from_spec() -> bool {
        true
    }

    open spec fn from_spec(v: Submit) -> Action {
        Action::Submit(v)
    }
}

impl From<Cancel> for Action {
    fn from(action: Cancel) -> (r: Action)
        ensures
            r == Action::Cancel(action),
    {
        Action::Cancel(action)
    }
}

impl FromSpecImpl<Cancel> for Action {
    open spec fn obeys_from_spec() -> bool {
        true
    }

    open spec fn from_spec(v: Cancel) -> Action {
        Action::Cancel(v)
    }
}

} // verus!
