//! Form fields.
use std::collections::HashMap;

use vstd::prelude::*;

use crate::text::owned;
use crate::time::{timestamp_in_range, utc_now, DateTimeUtc};
use vstd::std_specs::convert::FromSpecImpl;

verus! {

/// A field of a form.
#[derive(Debug)]
pub enum Field {
    Text(Text),
    Textarea(Textarea),
    Hidden(Hidden),
    Select(Select),
    Datetime(Datetime),
    Email(Email),
    Password(Password),
}

/// A text field called `name` (see [`Text::new`]).
pub fn text(name: &str) -> (r: Text)
    ensures
        r.name@ == name@,
        r.value@ == ""@,
        r.label is None,
        r.description is None,
        r.placeholder is None,
{
    Text::new(name)
}

/// A single-line text field.
#[derive(Debug)]
pub struct Text {
    pub name: String,
    pub value: String,
    pub label: Option<String>,
    pub description: Option<String>,
    pub placeholder: Option<String>,
}

impl Text {
    /// A text field called `name`, with an empty value and nothing else set.
    pub fn new(name: &str) -> (r: Text)
        ensures
            r.name@ == name@,
            r.value@ == ""@,
            r.label is None,
            r.description is None,
            r.placeholder is None,
    {
        Text { name: owned(name), value: owned(""), label: None, description: None, placeholder: None }
    }

    /// The field with the given value.
    pub fn value(self, value: &str) -> (r: Text)
        ensures
            r.value@ == value@,
            r.name == self.name,
            r.label == self.label,
            r.description == self.description,
            r.placeholder == self.placeholder,
    {
        Text { value: owned(value), ..self }
    }

    /// The field with the given label.
    pub fn label(self, label: &str) -> (r: Text)
        ensures
            r.label matches Some(t) && t@ == label@,
            r.name == self.name,
            r.value == self.value,
            r.description == self.description,
            r.placeholder == self.placeholder,
    {
        Text { label: Some(owned(label)), ..self }
    }

    /// The field with the given description.
    pub fn description(self, description: &str) -> (r: Text)
        ensures
            r.description matches Some(t) && t@ == description@,
            r.name == self.name,
            r.value == self.value,
            r.label == self.label,
            r.placeholder == self.placeholder,
    {
        Text { description: Some(owned(description)), ..self }
    }

    /// The field with the given placeholder.
    pub fn placeholder(self, placeholder: &str) -> (r: Text)
        ensures
            r.placeholder matches Some(t) && t@ == placeholder@,
            r.name == self.name,
            r.value == self.value,
            r.label == self.label,
            r.description == self.description,
    {
        Text { placeholder: Some(owned(placeholder)), ..self }
    }
}

impl From<Text> for Field {
    fn from(field: Text) -> (r: Field)
        ensures
            r == Field::Text(field),
    {
        Field::Text(field)
    }
}

impl FromSpecImpl<Text> for Field {
    open spec fn obeys_from_spec() -> bool {
        true
    }

    open spec fn from_spec(v: Text) -> Field {
        Field::Text(v)
    }
}

/// A text area field called `name` (see [`Textarea::new`]).
pub fn textarea(name: &str) -> (r: Textarea)
    ensures
        r.name@ == name@,
        r.value@ == ""@,
        r.label is None,
        r.description is None,
        r.placeholder is None,
{
    Textarea::new(name)
}

/// A multi-line text field.
#[derive(Debug)]
pub struct Textarea {
    pub name: String,
    pub value: String,
    pub label: Option<String>,
    pub description: Option<String>,
    pub placeholder: Option<String>,
}

impl Textarea {
    /// A text area field called `name`, with an empty value and nothing else set.
    pub fn new(name: &str) -> (r: Textarea)
        ensures
            r.name@ == name@,
            r.value@ == ""@,
            r.label is None,
            r.description is None,
            r.placeholder is None,
    {
        Textarea { name: owned(name), value: owned(""), label: None, description: None, placeholder: None }
    }

    /// The field with the given value.
    pub fn value(self, value: &str) -> (r: Textarea)
        ensures
            r.value@ == value@,
            r.name == self.name,
            r.label == self.label,
            r.description == self.description,
            r.placeholder == self.placeholder,
    {
        Textarea { value: owned(value), ..self }
    }

    /// The field with the given label.
    pub fn label(self, label: &str) -> (r: Textarea)
        ensures
            r.label matches Some(t) && t@ == label@,
            r.name == self.name,
            r.value == self.value,
            r.description == self.description,
            r.placeholder == self.placeholder,
    {
        Textarea { label: Some(owned(label)), ..self }
    }

    /// The field with the given description.
    pub fn description(self, description: &str) -> (r: Textarea)
        ensures
            r.description matches Some(t) && t@ == description@,
            r.name == self.name,
            r.value == self.value,
            r.label == self.label,
            r.placeholder == self.placeholder,
    {
        Textarea { description: Some(owned(description)), ..self }
    }

    /// The field with the given placeholder.
    pub fn placeholder(self, placeholder: &str) -> (r: Textarea)
        ensures
            r.placeholder matches Some(t) && t@ == placeholder@,
            r.name == self.name,
            r.value == self.value,
            r.label == self.label,
            r.description == self.description,
    {
        Textarea { placeholder: Some(owned(placeholder)), ..self }
    }
}

impl From<Textarea> for Field {
    fn from(field: Textarea) -> (r: Field)
        ensures
            r == Field::Textarea(field),
    {
        Field::Textarea(field)
    }
}

impl FromSpecImpl<Textarea> for Field {
    open spec fn obeys_from_spec() -> bool {
        true
    }

    open spec fn from_spec(v: Textarea) -> Field {
        Field::Textarea(v)
    }
}

/// A hidden field called `name` (see [`Hidden::new`]).
pub fn hidden(name: &str) -> (r: Hidden)
    ensures
        r.name@ == name@,
        r.value@ == ""@,
{
    Hidden::new(name)
}

/// A hidden field.
#[derive(Debug)]
pub struct Hidden {
    pub name: String,
    pub value: String,
}

impl Hidden {
    /// A hidden field called `name`, with an empty value.
    pub fn new(name: &str) -> (r: Hidden)
        ensures
            r.name@ == name@,
            r.value@ == ""@,
    {
        Hidden { name: owned(name), value: owned("") }
    }

    /// The field with the given value.
    pub fn value(self, value: &str) -> (r: Hidden)
        ensures
            r.value@ == value@,
            r.name == self.name,
    {
        Hidden { value: owned(value), ..self }
    }
}

impl From<Hidden> for Field {
    fn from(field: Hidden) -> (r: Field)
        ensures
            r == Field::Hidden(field),
    {
        Field::Hidden(field)
    }
}

impl FromSpecImpl<Hidden> for Field {
    open spec fn obeys_from_spec() -> bool {
        true
    }

    open spec fn from_spec(v: Hidden) -> Field {
        Field::Hidden(v)
    }
}

/// A select field called `name` (see [`Select::new`]).
pub fn select(name: &str) -> (r: Select)
    ensures
        r.name@ == name@,
        r.value@ == ""@,
        r.label is None,
        r.description is None,
        r.options@ == Map::<String, String>::empty(),
{
    Select::new(name)
}

/// A field whose value is chosen among options.
#[derive(Debug)]
pub struct Select {
    pub name: String,
    pub value: String,
    pub label: Option<String>,
    pub description: Option<String>,
    pub options: HashMap<String, String>,
}

impl Select {
    /// A select field called `name`, with an empty value and nothing else set.
    pub fn new(name: &str) -> (r: Select)
        ensures
            r.name@ == name@,
            r.value@ == ""@,
            r.label is None,
            r.description is None,
            r.options@ == Map::<String, String>::empty(),
    {
        Select { name: owned(name), value: owned(""), label: None, description: None, options: HashMap::new() }
    }

    /// The field with the given value.
    pub fn value(self, value: &str) -> (r: Select)
        ensures
            r.value@ == value@,
            r.name == self.name,
            r.label == self.label,
            r.description == self.description,
            r.options == self.options,
    {
        Select { value: owned(value), ..self }
    }

    /// The field with the given label.
    pub fn label(self, label: &str) -> (r: Select)
        ensures
            r.label matches Some(t) && t@ == label@,
            r.name == self.name,
            r.value == self.value,
            r.description == self.description,
            r.options == self.options,
    {
        Select { label: Some(owned(label)), ..self }
    }

    /// The field with the given description.
    pub fn description(self, description: &str) -> (r: Select)
        ensures
            r.description matches Some(t) && t@ == description@,
            r.name == self.name,
            r.value == self.value,
            r.label == self.label,
            r.options == self.options,
    {
        Select { description: Some(owned(description)), ..self }
    }

    /// The field with the given options.
    pub fn options(self, options: HashMap<String, String>) -> (r: Select)
        ensures
            r.options == options,
            r.name == self.name,
            r.value == self.value,
            r.label == self.label,
            r.description == self.description,
    {
        Select { options, ..self }
    }
}

impl From<Select> for Field {
    fn from(field: Select) -> (r: Field)
        ensures
            r == Field::Select(field),
    {
        Field::Select(field)
    }
}

impl FromSpecImpl<Select> for Field {
    open spec fn obeys_from_spec() -> bool {
        true
    }

    open spec fn from_spec(v: Select) -> Field {
        Field::Select(v)
    }
}

/// A date and time field called `name` (see [`Datetime::new`]).
pub fn datetime(name: &str) -> (r: Datetime)
    ensures
        r.name@ == name@,
        timestamp_in_range(r.value.seconds as int),
        r.value.nanoseconds < 2_000_000_000,
        r.label is None,
        r.description is None,
{
    Datetime::new(name)
}

/// A date and time field.
#[derive(Debug)]
pub struct Datetime {
    pub name: String,
    pub value: DateTimeUtc,
    pub label: Option<String>,
    pub description: Option<String>,
}

impl Datetime {
    /// A date and time field called `name`, valued at the current time, with
    /// no label or description.
    pub fn new(name: &str) -> (r: Datetime)
        ensures
            r.name@ == name@,
            timestamp_in_range(r.value.seconds as int),
            r.value.nanoseconds < 2_000_000_000,
            r.label is None,
            r.description is None,
    {
        Datetime { name: owned(name), value: utc_now(), label: None, description: None }
    }

    /// The field with the given value.
    pub fn value(self, value: DateTimeUtc) -> (r: Datetime)
        ensures
            r.value == value,
            r.name == self.name,
            r.label == self.label,
            r.description == self.description,
    {
        Datetime { value, ..self }
    }

    /// The field with the given label.
    pub fn label(self, label: &str) -> (r: Datetime)
        ensures
            r.label matches Some(t) && t@ == label@,
            r.name == self.name,
            r.value == self.value,
            r.description == self.description,
    {
        Datetime { label: Some(owned(label)), ..self }
    }

    /// The field with the given description.
    pub fn description(self, description: &str) -> (r: Datetime)
        ensures
            r.description matches Some(t) && t@ == description@,
            r.name == self.name,
            r.value == self.value,
            r.label == self.label,
    {
        Datetime { description: Some(owned(description)), ..self }
    }
}

impl From<Datetime> for Field {
    fn from(field: Datetime) -> (r: Field)
        ensures
            r == Field::Datetime(field),
    {
        Field::Datetime(field)
    }
}

impl FromSpecImpl<Datetime> for Field {
    open spec fn obeys_from_spec() -> bool {
        true
    }

    open spec fn from_spec(v: Datetime) -> Field {
        Field::Datetime(v)
    }
}

/// An email field called `name` (see [`Email::new`]).
pub fn email(name: &str) -> (r: Email)
    ensures
        r.name@ == name@,
        r.value@ == ""@,
        r.label is None,
        r.description is None,
        r.placeholder is None,
{
    Email::new(name)
}

/// An email address field.
#[derive(Debug)]
pub struct Email {
    pub name: String,
    pub value: String,
    pub label: Option<String>,
    pub description: Option<String>,
    pub placeholder: Option<String>,
}

impl Email {
    /// An email field called `name`, with an empty value and nothing else set.
    pub fn new(name: &str) -> (r: Email)
        ensures
            r.name@ == name@,
            r.value@ == ""@,
            r.label is None,
            r.description is None,
            r.placeholder is None,
    {
        Email { name: owned(name), value: owned(""), label: None, description: None, placeholder: None }
    }

    /// The field with the given value.
    pub fn value(self, value: &str) -> (r: Email)
        ensures
            r.value@ == value@,
            r.name == self.name,
            r.label == self.label,
            r.description == self.description,
            r.placeholder == self.placeholder,
    {
        Email { value: owned(value), ..self }
    }

    /// The field with the given label.
    pub fn label(self, label: &str) -> (r: Email)
        ensures
            r.label matches Some(t) && t@ == label@,
            r.name == self.name,
            r.value == self.value,
            r.description == self.description,
            r.placeholder == self.placeholder,
    {
        Email { label: Some(owned(label)), ..self }
    }

    /// The field with the given description.
    pub fn description(self, description: &str) -> (r: Email)
        ensures
            r.description matches Some(t) && t@ == description@,
            r.name == self.name,
            r.value == self.value,
            r.label == self.label,
            r.placeholder == self.placeholder,
    {
        Email { description: Some(owned(description)), ..self }
    }

    /// The field with the given placeholder.
    pub fn placeholder(self, placeholder: &str) -> (r: Email)
        ensures
            r.placeholder matches Some(t) && t@ == placeholder@,
            r.name == self.name,
            r.value == self.value,
            r.label == self.label,
            r.description == self.description,
    {
        Email { placeholder: Some(owned(placeholder)), ..self }
    }
}

impl From<Email> for Field {
    fn from(field: Email) -> (r: Field)
        ensures
            r == Field::Email(field),
    {
        Field::Email(field)
    }
}

impl FromSpecImpl<Email> for Field {
    open spec fn obeys_from_spec() -> bool {
        true
    }

    open spec fn from_spec(v: Email) -> Field {
        Field::Email(v)
    }
}

/// A password field called `name` (see [`Password::new`]).
pub fn password(name: &str) -> (r: Password)
    ensures
        r.name@ == name@,
        r.value@ == ""@,
        r.label is None,
        r.description is None,
        r.placeholder is None,
{
    Password::new(name)
}

/// A password field.
#[derive(Debug)]
pub struct Password {
    pub name: String,
    pub value: String,
    pub label: Option<String>,
    pub description: Option<String>,
    pub placeholder: Option<String>,
}

impl Password {
    /// A password field called `name`, with an empty value and nothing else set.
    pub fn new(name: &str) -> (r: Password)
        ensures
            r.name@ == name@,
            r.value@ == ""@,
            r.label is None,
            r.description is None,
            r.placeholder is None,
    {
        Password { name: owned(name), value: owned(""), label: None, description: None, placeholder: None }
    }

    /// The field with the given value.
    pub fn value(self, value: &str) -> (r: Password)
        ensures
            r.value@ == value@,
            r.name == self.name,
            r.label == self.label,
            r.description == self.description,
            r.placeholder == self.placeholder,
    {
        Password { value: owned(value), ..self }
    }

    /// The field with the given label.
    pub fn label(self, label: &str) -> (r: Password)
        ensures
            r.label matches Some(t) && t@ == label@,
            r.name == self.name,
            r.value == self.value,
            r.description == self.description,
            r.placeholder == self.placeholder,
    {
        Password { label: Some(owned(label)), ..self }
    }

    /// The field with the given description.
    pub fn description(self, description: &str) -> (r: Password)
        ensures
            r.description matches Some(t) && t@ == description@,
            r.name == self.name,
            r.value == self.value,
            r.label == self.label,
            r.placeholder == self.placeholder,
    {
        Password { description: Some(owned(description)), ..self }
    }

    /// The field with the given placeholder.
    pub fn placeholder(self, placeholder: &str) -> (r: Password)
        ensures
            r.placeholder matches Some(t) && t@ == placeholder@,
            r.name == self.name,
            r.value == self.value,
            r.label == self.label,
            r.description == self.description,
    {
        Password { placeholder: Some(owned(placeholder)), ..self }
    }
}

impl From<Password> for Field {
    fn from(field: Password) -> (r: Field)
        ensures
            r == Field::Password(field),
    {
        Field::Password(field)
    }
}

impl FromSpecImpl<Password> for Field {
    open spec fn obeys_from_spec() -> bool {
        true
    }

    open spec fn from_spec(v: Password) -> Field {
        Field::Password(v)
    }
}

} // verus!
