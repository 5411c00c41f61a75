//! Where the database is and whom to log in as.
use vstd::prelude::*;

use crate::text::owned;

verus! {

/// The settings of a database connection.  The host is an IPv4 address,
/// held as its four octets.
#[derive(Debug, Clone)]
pub struct DatabaseConfig {
    pub host: [u8; 4],
    pub port: u16,
    pub username: String,
    pub password: String,
    pub database: String,
}

impl Default for DatabaseConfig {
    /// A local PostgreSQL server at 127.0.0.1:5432, logged into as
    /// `postgres` with password `postgres`, database `postgres`.
    fn default() -> (r: DatabaseConfig)
        ensures
            r.host@ == seq![127u8, 0u8, 0u8, 1u8],
            r.port == 5432,
            r.username@ == "postgres"@,
            r.password@ == "postgres"@,
            r.database@ == "postgres"@,
    {
        DatabaseConfig {
            host: [127, 0, 0, 1],
            port: 5432,
            username: owned("postgres"),
            password: owned("postgres"),
            database: owned("postgres"),
        }
    }
}

} // verus!
