//! Web forms: fields, actions, and the state a form is built from.
pub mod action;
pub mod extractor;
pub mod field;
pub mod form;
pub mod state;
