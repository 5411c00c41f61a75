//! Reading typed values out of the configuration tree: what a value gives
//! when it is read as a boolean, an integer, a character or text.
use vstd::prelude::*;

use vstd::std_specs::cmp::PartialEqSpecImpl;

use super::{Node, Value};
use crate::text::{
    int_error_message, int_error_text, owned, parse_magnitude, spec_parse_int,
};

verus! {

/// An error met while reading a typed value, carrying its message.
#[derive(Debug, Clone, Eq)]
pub struct Error(pub String);

/// Two errors are equal when their messages are.
impl PartialEq for Error {
    fn eq(&self, other: &Self) -> (r: bool) {
        self.0 == other.0
    }
}

impl PartialEqSpecImpl for Error {
    open spec fn obeys_eq_spec() -> bool {
        true
    }

    open spec fn eq_spec(&self, other: &Self) -> bool {
        self.0@ == other.0@
    }
}

impl View for Error {
    type V = Seq<char>;

    open spec fn view(&self) -> Seq<char> {
        self.0@
    }
}

impl Error {
    /// An error with the given message.
    pub fn custom(msg: &str) -> (r: Error)
        ensures
            r@ == msg@,
    {
        Error(owned(msg))
    }

    /// The message, as an owned string.
    pub fn message(&self) -> (r: String)
        ensures
            r@ == self@,
    {
        self.0.clone()
    }
}

/// `cannot deserialize <kind> variant as <name>` for a value that is not an
/// entry.
pub open spec fn not_entry_message(n: Node, name: Seq<char>) -> Seq<char> {
    match n {
        Node::Array(_) => "cannot deserialize array variant as "@ + name,
        _ => "cannot deserialize table variant as "@ + name,
    }
}

/// What reading a value as an integer type gives: the entry's text read as
/// `str::parse` reads that type, or the message of the error.
pub open spec fn read_int(n: Node, signed: bool, pos_bound: int, neg_bound: int, name: Seq<char>) -> Result<
    int,
    Seq<char>,
> {
    match n {
        Node::Entry(t) => match spec_parse_int(t, signed, pos_bound, neg_bound) {
            Ok(v) => Ok(v),
            Err(k) => Err(int_error_message(k)),
        },
        _ => Err(not_entry_message(n, name)),
    }
}

/// What reading a value as a boolean gives.
pub open spec fn read_bool(n: Node) -> Result<bool, Seq<char>> {
    match n {
        Node::Entry(t) => if t == "true"@ {
            Ok(true)
        } else if t == "false"@ {
            Ok(false)
        } else {
            Err("provided string was not `true` or `false`"@)
        },
        _ => Err(not_entry_message(n, "bool"@)),
    }
}

/// What reading a value as a character gives.
pub open spec fn read_char(n: Node) -> Result<char, Seq<char>> {
    match n {
        Node::Entry(t) => if t.len() == 1 {
            Ok(t[0])
        } else if t.len() == 0 {
            Err("cannot parse char from empty string"@)
        } else {
            Err("too many characters in string"@)
        },
        _ => Err(not_entry_message(n, "char"@)),
    }
}

/// What reading a value as text gives.
pub open spec fn read_text(n: Node, name: Seq<char>) -> Result<Seq<char>, Seq<char>> {
    match n {
        Node::Entry(t) => Ok(t),
        _ => Err(not_entry_message(n, name)),
    }
}

/// Reads typed values out of a configuration value.
pub struct ValueDeserializer<'de>(pub &'de Value);

impl<'de> ValueDeserializer<'de> {
    /// A reader of `value`.
    pub fn new(value: &'de Value) -> (r: Self)
        ensures
            r.0 == value,
    {
        Self(value)
    }

    fn not_entry(&self, name: &str) -> (r: Error)
        requires
            !(self.0 is Entry),
        ensures
            r@ == not_entry_message(self.0@, name@),
    {
        let mut s = match self.0 {
            Value::Array(_) => owned("cannot deserialize array variant as "),
            _ => owned("cannot deserialize table variant as "),
        };
        s.append(name);
        Error(s)
    }

    /// The entry's text read as an integer whose values run from
    /// `-neg_bound` to `pos_bound`: whether it is negative and its magnitude.
    fn read_magnitude(&self, signed: bool, pos_bound: u128, neg_bound: u128, name: &str) -> (r:
        Result<(bool, u128), Error>)
        ensures
            match r {
                Ok((neg, m)) => read_int(self.0@, signed, pos_bound as int, neg_bound as int, name@)
                    == Ok::<int, Seq<char>>(if neg { -(m as int) } else { m as int }) && (neg
                    ==> signed && m <= neg_bound) && (!neg ==> m <= pos_bound),
                Err(e) => read_int(self.0@, signed, pos_bound as int, neg_bound as int, name@)
                    == Err::<int, Seq<char>>(e@),
            },
    {
        match self.0 {
            Value::Entry(entry) => match parse_magnitude(entry.0.as_str(), signed, pos_bound, neg_bound) {
                Ok(p) => Ok(p),
                Err(k) => Err(Error(int_error_text(k))),
            },
            _ => Err(self.not_entry(name)),
        }
    }

    /// The entry's text read as `str::parse::<bool>` reads it.
    pub fn deserialize_bool(&self) -> (r: Result<bool, Error>)
        ensures
            match r {
                Ok(b) => read_bool(self.0@) == Ok::<bool, Seq<char>>(b),
                Err(e) => read_bool(self.0@) == Err::<bool, Seq<char>>(e@),
            },
    {
        match self.0 {
            Value::Entry(entry) => {
                let t = owned("true");
                let f = owned("false");
                if entry.0 == t {
                    Ok(true)
                } else if entry.0 == f {
                    Ok(false)
                } else {
                    Err(Error::custom("provided string was not `true` or `false`"))
                }
            },
            _ => Err(self.not_entry("bool")),
        }
    }

    /// The entry's text read as `str::parse::<i8>` reads it.
    pub fn deserialize_i8(&self) -> (r: Result<i8, Error>)
        ensures
            match r {
                Ok(v) => read_int(self.0@, true, 0x7f, 0x80, "i8"@) == Ok::<int, Seq<char>>(v as int),
                Err(e) => read_int(self.0@, true, 0x7f, 0x80, "i8"@) == Err::<int, Seq<char>>(e@),
            },
    {
        match self.read_magnitude(true, 0x7f, 0x80, "i8") {
            Ok((neg, m)) => Ok(if neg { (0 - (m as i16)) as i8 } else { m as i8 }),
            Err(e) => Err(e),
        }
    }

    /// The entry's text read as `str::parse::<i16>` reads it.
    pub fn deserialize_i16(&self) -> (r: Result<i16, Error>)
        ensures
            match r {
                Ok(v) => read_int(self.0@, true, 0x7fff, 0x8000, "i16"@) == Ok::<int, Seq<char>>(
                    v as int,
                ),
                Err(e) => read_int(self.0@, true, 0x7fff, 0x8000, "i16"@) == Err::<int, Seq<char>>(
                    e@,
                ),
            },
    {
        match self.read_magnitude(true, 0x7fff, 0x8000, "i16") {
            Ok((neg, m)) => Ok(if neg { (0 - (m as i32)) as i16 } else { m as i16 }),
            Err(e) => Err(e),
        }
    }

    /// The entry's text read as `str::parse::<i32>` reads it.
    pub fn deserialize_i32(&self) -> (r: Result<i32, Error>)
        ensures
            match r {
                Ok(v) => read_int(self.0@, true, 0x7fff_ffff, 0x8000_0000, "i32"@) == Ok::<
                    int,
                    Seq<char>,
                >(v as int),
                Err(e) => read_int(self.0@, true, 0x7fff_ffff, 0x8000_0000, "i32"@) == Err::<
                    int,
                    Seq<char>,
                >(e@),
            },
    {
        match self.read_magnitude(true, 0x7fff_ffff, 0x8000_0000, "i32") {
            Ok((neg, m)) => Ok(if neg { (0 - (m as i64)) as i32 } else { m as i32 }),
            Err(e) => Err(e),
        }
    }

    /// The entry's text read as `str::parse::<i64>` reads it.
    pub fn deserialize_i64(&self) -> (r: Result<i64, Error>)
        ensures
            match r {
                Ok(v) => read_int(
                    self.0@,
                    true,
                    0x7fff_ffff_ffff_ffff,
                    0x8000_0000_0000_0000,
                    "i64"@,
                ) == Ok::<int, Seq<char>>(v as int),
                Err(e) => read_int(
                    self.0@,
                    true,
                    0x7fff_ffff_ffff_ffff,
                    0x8000_0000_0000_0000,
                    "i64"@,
                ) == Err::<int, Seq<char>>(e@),
            },
    {
        match self.read_magnitude(true, 0x7fff_ffff_ffff_ffff, 0x8000_0000_0000_0000, "i64") {
            Ok((neg, m)) => Ok(if neg { (0 - (m as i128)) as i64 } else { m as i64 }),
            Err(e) => Err(e),
        }
    }

    /// The entry's text read as `str::parse::<i128>` reads it.
    pub fn deserialize_i128(&self) -> (r: Result<i128, Error>)
        ensures
            match r {
                Ok(v) => read_int(
                    self.0@,
                    true,
                    i128::MAX as int,
                    0x8000_0000_0000_0000_0000_0000_0000_0000,
                    "i128"@,
                ) == Ok::<int, Seq<char>>(v as int),
                Err(e) => read_int(
                    self.0@,
                    true,
                    i128::MAX as int,
                    0x8000_0000_0000_0000_0000_0000_0000_0000,
                    "i128"@,
                ) == Err::<int, Seq<char>>(e@),
            },
    {
        match self.read_magnitude(
            true,
            i128::MAX as u128,
            0x8000_0000_0000_0000_0000_0000_0000_0000,
            "i128",
        ) {
            Ok((neg, m)) => Ok(
                if neg {
                    if m == 0x8000_0000_0000_0000_0000_0000_0000_0000 {
                        i128::MIN
                    } else {
                        0 - (m as i128)
                    }
                } else {
                    m as i128
                },
            ),
            Err(e) => Err(e),
        }
    }

    /// The entry's text read as `str::parse::<u8>` reads it.
    pub fn deserialize_u8(&self) -> (r: Result<u8, Error>)
        ensures
            match r {
                Ok(v) => read_int(self.0@, false, 0xff, 0, "u8"@) == Ok::<int, Seq<char>>(v as int),
                Err(e) => read_int(self.0@, false, 0xff, 0, "u8"@) == Err::<int, Seq<char>>(e@),
            },
    {
        match self.read_magnitude(false, 0xff, 0, "u8") {
            Ok((_, m)) => Ok(m as u8),
            Err(e) => Err(e),
        }
    }

    /// The entry's text read as `str::parse::<u16>` reads it.
    pub fn deserialize_u16(&self) -> (r: Result<u16, Error>)
        ensures
            match r {
                Ok(v) => read_int(self.0@, false, 0xffff, 0, "u16"@) == Ok::<int, Seq<char>>(
                    v as int,
                ),
                Err(e) => read_int(self.0@, false, 0xffff, 0, "u16"@) == Err::<int, Seq<char>>(e@),
            },
    {
        match self.read_magnitude(false, 0xffff, 0, "u16") {
            Ok((_, m)) => Ok(m as u16),
            Err(e) => Err(e),
        }
    }

    /// The entry's text read as `str::parse::<u32>` reads it.
    pub fn deserialize_u32(&self) -> (r: Result<u32, Error>)
        ensures
            match r {
                Ok(v) => read_int(self.0@, false, 0xffff_ffff, 0, "u32"@) == Ok::<int, Seq<char>>(
                    v as int,
                ),
                Err(e) => read_int(self.0@, false, 0xffff_ffff, 0, "u32"@) == Err::<
                    int,
                    Seq<char>,
                >(e@),
            },
    {
        match self.read_magnitude(false, 0xffff_ffff, 0, "u32") {
            Ok((_, m)) => Ok(m as u32),
            Err(e) => Err(e),
        }
    }

    /// The entry's text read as `str::parse::<u64>` reads it.
    pub fn deserialize_u64(&self) -> (r: Result<u64, Error>)
        ensures
            match r {
                Ok(v) => read_int(self.0@, false, u64::MAX as int, 0, "u64"@) == Ok::<
                    int,
                    Seq<char>,
                >(v as int),
                Err(e) => read_int(self.0@, false, u64::MAX as int, 0, "u64"@) == Err::<
                    int,
                    Seq<char>,
                >(e@),
            },
    {
        match self.read_magnitude(false, u64::MAX as u128, 0, "u64") {
            Ok((_, m)) => Ok(m as u64),
            Err(e) => Err(e),
        }
    }

    /// The entry's text read as `str::parse::<u128>` reads it.
    pub fn deserialize_u128(&self) -> (r: Result<u128, Error>)
        ensures
            match r {
                Ok(v) => read_int(self.0@, false, u128::MAX as int, 0, "u128"@) == Ok::<
                    int,
                    Seq<char>,
                >(v as int),
                Err(e) => read_int(self.0@, false, u128::MAX as int, 0, "u128"@) == Err::<
                    int,
                    Seq<char>,
                >(e@),
            },
    {
        match self.read_magnitude(false, u128::MAX, 0, "u128") {
            Ok((_, m)) => Ok(m),
            Err(e) => Err(e),
        }
    }

    /// The entry's text read as `str::parse::<char>` reads it.
    pub fn deserialize_char(&self) -> (r: Result<char, Error>)
        ensures
            match r {
                Ok(c) => read_char(self.0@) == Ok::<char, Seq<char>>(c),
                Err(e) => read_char(self.0@) == Err::<char, Seq<char>>(e@),
            },
    {
        match self.0 {
            Value::Entry(entry) => {
                let n = entry.0.as_str().unicode_len();
                if n == 1 {
                    Ok(entry.0.as_str().get_char(0))
                } else if n == 0 {
                    Err(Error::custom("cannot parse char from empty string"))
                } else {
                    Err(Error::custom("too many characters in string"))
                }
            },
            _ => Err(self.not_entry("char")),
        }
    }

    /// The entry's text, borrowed.
    pub fn deserialize_str(&self) -> (r: Result<&'de str, Error>)
        ensures
            match r {
                Ok(t) => read_text(self.0@, "str"@) == Ok::<Seq<char>, Seq<char>>(t@),
                Err(e) => read_text(self.0@, "str"@) == Err::<Seq<char>, Seq<char>>(e@),
            },
    {
        match self.0 {
            Value::Entry(entry) => Ok(entry.0.as_str()),
            _ => Err(self.not_entry("str")),
        }
    }

    /// The entry's text, owned.
    pub fn deserialize_string(&self) -> (r: Result<String, Error>)
        ensures
            match r {
                Ok(t) => read_text(self.0@, "string"@) == Ok::<Seq<char>, Seq<char>>(t@),
                Err(e) => read_text(self.0@, "string"@) == Err::<Seq<char>, Seq<char>>(e@),
            },
    {
        match self.0 {
            Value::Entry(entry) => Ok(entry.0.clone()),
            _ => Err(self.not_entry("string")),
        }
    }
}

} // verus!
