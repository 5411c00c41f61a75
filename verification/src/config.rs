//! A configuration: a table of values addressed by dotted keys, which can
//! be built up, merged with others, and locked against change.
use vstd::prelude::*;

use crate::value::{
    merge_entries, merged, node_get, node_set, node_set_default, outcome, Error, Lookup, Node, Table,
    Value,
};

verus! {

/// A configuration.
#[derive(Debug, Clone)]
pub struct Config(pub Table);

/// A configuration that can no longer change.
#[derive(Debug)]
pub struct ImmutableConfig(pub Config);

/// The file formats a configuration can be loaded from and saved to.
#[derive(Clone, Copy, Debug, PartialEq, Eq)]
pub enum Format {
    Toml,
    Yaml,
    Json,
}

/// The format named by a file extension, if it is one of the recognised
/// ones.
pub open spec fn spec_format_for_extension(ext: Option<Seq<char>>) -> Option<Format> {
    match ext {
        Some(e) => if e == "toml"@ {
            Some(Format::Toml)
        } else if e == "yml"@ || e == "yaml"@ {
            Some(Format::Yaml)
        } else if e == "json"@ {
            Some(Format::Json)
        } else {
            None
        },
        None => None,
    }
}

/// The format in which a file with the given extension is read or written:
/// `toml`, `yml` or `yaml`, `json`; any other extension, or none, is not a
/// configuration format.
pub fn format_for_extension(ext: Option<&str>) -> (r: Option<Format>)
    ensures
        r == spec_format_for_extension(
            match ext {
                Some(e) => Some(e@),
                None => None,
            },
        ),
{
    match ext {
        None => None,
        Some(e) => {
            let e = crate::text::owned(e);
            if e == crate::text::owned("toml") {
                Some(Format::Toml)
            } else if e == crate::text::owned("yml") || e == crate::text::owned("yaml") {
                Some(Format::Yaml)
            } else if e == crate::text::owned("json") {
                Some(Format::Json)
            } else {
                None
            }
        },
    }
}

impl Config {
    /// An empty configuration.
    pub fn new() -> (r: Config)
        ensures
            r.0@ == Seq::<(Seq<char>, Node)>::empty(),
    {
        Config(Table::new())
    }

    /// Stores a value under a dotted key (see [`node_set`]); `value` is the
    /// outcome of turning the value to store into a tree.  Gives back the
    /// configuration so that calls can be chained.
    pub fn set(&mut self, key: &str, value: Result<Value, Error>) -> (r: Result<
        &mut Config,
        Error,
    >)
        ensures
            match node_set(Node::Table(old(self).0@), key@, outcome(value)) {
                Ok(n) => r matches Ok(c) && Node::Table(c.0@) == n && *final(c) == *final(self),
                Err(m) => r matches Err(e) && e@ == m && final(self).0@ == old(self).0@,
            },
    {
        match self.0.set(key, value) {
            Ok(()) => Ok(self),
            Err(e) => Err(e),
        }
    }

    /// Stores a value under a dotted key unless the key already leads to a
    /// value.
    pub fn set_default(&mut self, key: &str, value: Result<Value, Error>) -> (r: Result<
        &mut Config,
        Error,
    >)
        ensures
            match node_set_default(Node::Table(old(self).0@), key@, outcome(value)) {
                Ok(n) => r matches Ok(c) && Node::Table(c.0@) == n && *final(c) == *final(self),
                Err(m) => r matches Err(e) && e@ == m && final(self).0@ == old(self).0@,
            },
    {
        match self.0.set_default(key, value) {
            Ok(()) => Ok(self),
            Err(e) => Err(e),
        }
    }

    /// Merges another configuration into this one: its entries win.
    pub fn merge(&mut self, config: &Config) -> (r: Result<&mut Config, Error>)
        ensures
            ({
                let m = merge_entries(old(self).0@, config.0@, config.0@.len(), false);
                match m.1 {
                    None => r matches Ok(c) && c.0@ == m.0 && *final(c) == *final(self),
                    Some(msg) => r matches Err(e) && e@ == msg && final(self).0@ == m.0,
                }
            }),
    {
        match self.0.merge(&config.0) {
            Ok(()) => Ok(self),
            Err(e) => Err(e),
        }
    }

    /// Merges another configuration into this one as defaults: this one's
    /// entries win.
    pub fn merge_default(&mut self, config: &Config) -> (r: Result<&mut Config, Error>)
        ensures
            ({
                let m = merge_entries(old(self).0@, config.0@, config.0@.len(), true);
                match m.1 {
                    None => r matches Ok(c) && c.0@ == m.0 && *final(c) == *final(self),
                    Some(msg) => r matches Err(e) && e@ == msg && final(self).0@ == m.0,
                }
            }),
    {
        match self.0.merge_default(&config.0) {
            Ok(()) => Ok(self),
            Err(e) => Err(e),
        }
    }

    /// The value under a dotted key: what a typed read of the key reads
    /// (see [`config_read`]).
    pub fn lookup(&self, key: &str) -> (r: Result<&Value, Error>)
        ensures
            match r {
                Ok(v) => config_read(*self, key@) == Ok::<Node, Seq<char>>(v@),
                Err(e) => config_read(*self, key@) == Err::<Node, Seq<char>>(e@),
            },
    {
        self.0.lookup(key, Lookup::Get)
    }

    /// Locks the configuration against change.
    pub fn lock(self) -> (r: ImmutableConfig)
        ensures
            r.0 == self,
    {
        ImmutableConfig(self)
    }
}

/// What a typed read of a dotted key reads in a configuration: the value
/// found by following the key, or the message of the error met on the way.
pub open spec fn config_read(c: Config, key: Seq<char>) -> Result<Node, Seq<char>> {
    node_get(Node::Table(c.0@), key, Lookup::Get)
}

impl ImmutableConfig {
    /// The value under a dotted key: what a typed read of the key reads.
    pub fn lookup(&self, key: &str) -> (r: Result<&Value, Error>)
        ensures
            match r {
                Ok(v) => config_read(self.0, key@) == Ok::<Node, Seq<char>>(v@),
                Err(e) => config_read(self.0, key@) == Err::<Node, Seq<char>>(e@),
            },
    {
        self.0.lookup(key)
    }
}

/// Locking a configuration changes no read: every key reads in the locked
/// configuration what it read just before locking.
pub proof fn law_lock_keeps_reads(c: Config, locked: ImmutableConfig, key: Seq<char>)
    requires
        locked.0 == c,
    ensures
        config_read(locked.0, key) == config_read(c, key),
{
}

impl Default for Config {
    fn default() -> (r: Config)
        ensures
            r.0@ == Seq::<(Seq<char>, Node)>::empty(),
    {
        Config::new()
    }
}

} // verus!
