//! User records, their login tokens and password hashes.
pub mod action;
pub mod form;
pub mod model;
pub mod util;
