//! Password salts and hashes, and the secret that tokens are signed with.
use vstd::prelude::*;

use crate::text::{owned, push_char};
use argon2rs::verifier::Encoded;
use rand::Rng;
use std::string::FromUtf8Error;
use vstd::utf8::{encode_utf8, encode_utf8_valid_utf8, is_ascii_chars, is_ascii_chars_encode_utf8, valid_utf8};

verus! {

/// `std::string::FromUtf8Error`: bytes that were not UTF-8.
#[verifier::external_type_specification]
#[verifier::external_body]
pub struct ExFromUtf8Error(FromUtf8Error);

/// A character a salt is made of: an ASCII letter or digit.
pub open spec fn is_salt_char(c: char) -> bool {
    ('A' <= c <= 'Z') || ('a' <= c <= 'z') || ('0' <= c <= '9')
}

/// A salt: 32 ASCII letters and digits.
pub open spec fn is_salt(s: Seq<char>) -> bool {
    &&& s.len() == 32
    &&& forall|i: int| 0 <= i < s.len() ==> is_salt_char(#[trigger] s[i])
}

/// `rand::thread_rng().sample(rand::distributions::Alphanumeric)`, as a
/// character: rand draws it from the 62 ASCII letters and digits.  Which one
/// it is, is chance.
#[verifier::external_body]
fn random_alphanumeric() -> (c: char)
    ensures
        is_salt_char(c),
{
    rand::thread_rng().sample(rand::distributions::Alphanumeric) as char
}

/// A fresh random salt of 32 ASCII letters and digits.
pub fn salt() -> (r: String)
    ensures
        is_salt(r@),
{
    let mut s = String::new();
    let mut i: usize = 0;
    while i < 32
        invariant
            i <= 32,
            s@.len() == i,
            forall|j: int| 0 <= j < i ==> is_salt_char(#[trigger] s@[j]),
        decreases 32 - i,
    {
        let c = random_alphanumeric();
        push_char(&mut s, c);
        i = i + 1;
    }
    s
}

/// What argon2rs gives for `Encoded::default2i(password, salt, &[], &[])
/// .to_u8()`: the argon2i hash of `password` under `salt` (argon2rs's
/// default parameters, no key, no associated data), written out as
/// `$argon2i$m=..,t=..,p=..$<salt>$<hash>` with both in base64.
pub uninterp spec fn argon2i_encoded(password: Seq<u8>, salt: Seq<u8>) -> Seq<u8>;

/// argon2rs's `Encoded::default2i(password, salt, &[], &[]).to_u8()`.  The
/// bytes are those of `argon2i_encoded`; they are ASCII, since `to_u8`
/// writes them with `format!` from fixed text, decimal numbers and base64.
/// argon2rs asserts that the password is at most `u32::MAX` bytes and the
/// salt between 8 and `u32::MAX` bytes.
#[verifier::external_body]
fn argon2i_encode(password: &[u8], salt: &[u8]) -> (r: Vec<u8>)
    requires
        password@.len() <= 0xffff_ffff,
        8 <= salt@.len() <= 0xffff_ffff,
    ensures
        r@ == argon2i_encoded(password@, salt@),
        forall|i: int| 0 <= i < r@.len() ==> #[trigger] r@[i] < 128,
{
    Encoded::default2i(password, salt, &[], &[]).to_u8()
}

/// `String::from_utf8`: the text of `bytes` when they are UTF-8, an error
/// when they are not.
#[verifier::external_body]
fn string_from_utf8(bytes: Vec<u8>) -> (r: Result<String, FromUtf8Error>)
    ensures
        r is Ok <==> valid_utf8(bytes@),
        r matches Ok(s) ==> encode_utf8(s@) == bytes@,
{
    String::from_utf8(bytes)
}

/// ASCII bytes are UTF-8.
proof fn lemma_ascii_bytes_valid_utf8(bytes: Seq<u8>)
    requires
        forall|i: int| 0 <= i < bytes.len() ==> #[trigger] bytes[i] < 128,
    ensures
        valid_utf8(bytes),
{
    let chars = Seq::new(bytes.len(), |i: int| bytes[i] as char);
    assert(is_ascii_chars(chars));
    is_ascii_chars_encode_utf8(chars);
    assert(encode_utf8(chars) =~= bytes);
    encode_utf8_valid_utf8(chars);
}

/// The UTF-8 bytes of an ASCII text are its characters, one byte each.
proof fn lemma_salt_bytes(s: Seq<char>)
    requires
        is_salt(s),
    ensures
        encode_utf8(s).len() == 32,
{
    assert(is_ascii_chars(s));
    is_ascii_chars_encode_utf8(s);
}

/// The argon2i hash of `password` under `salt`, as the text argon2rs writes
/// it out.
pub fn hash_with_salt(password: &str, salt: &str) -> (r: Result<String, FromUtf8Error>)
    requires
        encode_utf8(password@).len() <= 0xffff_ffff,
        8 <= encode_utf8(salt@).len() <= 0xffff_ffff,
    ensures
        r matches Ok(h) && encode_utf8(h@) == argon2i_encoded(encode_utf8(password@), encode_utf8(salt@)),
{
    let bytes = argon2i_encode(password.as_bytes(), salt.as_bytes());
    proof {
        lemma_ascii_bytes_valid_utf8(bytes@);
    }
    string_from_utf8(bytes)
}

/// The argon2i hash of `password` under a fresh random salt, as the text
/// argon2rs writes it out.
pub fn hash(password: &str) -> (r: Result<String, FromUtf8Error>)
    requires
        encode_utf8(password@).len() <= 0xffff_ffff,
    ensures
        r matches Ok(h) && exists|s: Seq<char>|
            is_salt(s) && encode_utf8(h@) == argon2i_encoded(encode_utf8(password@), encode_utf8(s)),
{
    let s = salt();
    proof {
        lemma_salt_bytes(s@);
    }
    hash_with_salt(password, s.as_str())
}

/// The secret that tokens are signed and checked with.
pub fn get_secret() -> (r: String)
    ensures
        r@ == "secret"@,
{
    owned("secret")
}

} // verus!
