//! The requests the user store answers.
use vstd::prelude::*;

use crate::auth::model::User;

verus! {

/// Asks for every user.
#[derive(Debug, Clone, Copy)]
pub struct List;

/// Asks for the user with the given email.
#[derive(Debug, Clone)]
pub struct Locate(pub String);

/// Asks for the user with the given id.
#[derive(Debug, Clone, Copy)]
pub struct Retrieve(pub u128);

/// Asks to store the given user over the one with its id.
#[derive(Debug, Clone)]
pub struct Update(pub User);

} // verus!
