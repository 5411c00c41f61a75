//! A configuration tree whose values are addressed by dotted keys, together
//! with the pieces of a small web toolkit: form fields, actions and forms,
//! the reader of url-encoded form bodies, user records with their tokens and
//! password hashes, theme manifests and database settings.
pub mod auth;
pub mod config;
pub mod db;
pub mod form;
pub mod text;
pub mod theme;
pub mod time;
pub mod value;
