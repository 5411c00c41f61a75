//! The records of the user store and what a request says of its user.
use vstd::prelude::*;

use crate::text::owned;
use crate::time::{local_now_timestamp, timestamp_in_range, utc_now, DateTimeUtc};
use uuid::Uuid;
use vstd::std_specs::convert::FromSpecImpl;

verus! {

/// `16^n`.
pub open spec fn pow16(n: nat) -> int
    decreases n,
{
    if n == 0 {
        1
    } else {
        16 * pow16((n - 1) as nat)
    }
}

/// The lowercase hexadecimal digit for `d` (below 16).
pub open spec fn hex_digit(d: int) -> char {
    if d < 10 {
        (('0' as int) + d) as char
    } else {
        (('a' as int) + d - 10) as char
    }
}

/// Hexadecimal digit `k` of an identifier, counted from the most
/// significant of its 32 digits.
pub open spec fn uuid_digit(id: u128, k: int) -> char {
    hex_digit((id as int / pow16((31 - k) as nat)) % 16)
}

/// The text of an identifier: its 32 hexadecimal digits, most significant
/// first, in lowercase, in groups of 8, 4, 4, 4 and 12 joined by hyphens.
pub open spec fn uuid_hex(id: u128) -> Seq<char> {
    Seq::new(
        36,
        |i: int|
            if i == 8 || i == 13 || i == 18 || i == 23 {
                '-'
            } else {
                uuid_digit(
                    id,
                    if i < 8 {
                        i
                    } else if i < 13 {
                        i - 1
                    } else if i < 18 {
                        i - 2
                    } else if i < 23 {
                        i - 3
                    } else {
                        i - 4
                    },
                )
            },
    )
}

/// A random identifier of version 4: the version digit (the 13th) is `4`
/// and the variant digit (the 17th) is one of `8`, `9`, `a`, `b`.
pub open spec fn is_v4(id: u128) -> bool {
    &&& (id as int / pow16(19)) % 16 == 4
    &&& 8 <= (id as int / pow16(15)) % 16 <= 11
}

/// `uuid::Uuid::new_v4().as_u128()`: a fresh random identifier.  uuid takes
/// 128 random bits and sets the version bits to `4` and the variant bits to
/// `10`; which identifier it is, is chance.
#[verifier::external_body]
pub(crate) fn new_uuid() -> (r: u128)
    ensures
        is_v4(r),
{
    Uuid::new_v4().as_u128()
}

/// `uuid::Uuid::from_u128(id).to_string()`: uuid writes the 16 bytes of the
/// identifier, most significant first, as lowercase hexadecimal, hyphenated
/// after the 4th, 6th, 8th and 10th byte.
#[verifier::external_body]
pub(crate) fn uuid_text(id: u128) -> (r: String)
    ensures
        r@ == uuid_hex(id),
{
    Uuid::from_u128(id).to_string()
}

/// What uuid's parser (`str::parse::<uuid::Uuid>`, that is
/// `Uuid::parse_str`) gives for `text`, as the 128-bit number of the
/// identifier: it reads 32 hexadecimal digits in either case, plain, with
/// hyphens, in braces or after `urn:uuid:`; anything else gives `None`.
pub uninterp spec fn uuid_parsed(text: Seq<char>) -> Option<u128>;

/// `text.parse::<uuid::Uuid>()`, taken as a number (see `uuid_parsed`).
/// The text uuid writes for an identifier reads back as that identifier.
#[verifier::external_body]
pub fn parse_uuid(text: &str) -> (r: Option<u128>)
    ensures
        r == uuid_parsed(text@),
        forall|id: u128| text@ == #[trigger] uuid_hex(id) ==> r == Some(id),
{
    match text.parse::<Uuid>() {
        Ok(id) => Some(id.as_u128()),
        Err(_) => None,
    }
}

/// A user of the site.
#[derive(Debug, Clone)]
pub struct User {
    /// The identifier, as the 128-bit number a UUID is.
    pub id: u128,
    pub email: String,
    pub password: String,
    pub created: DateTimeUtc,
    pub updated: DateTimeUtc,
}

impl Default for User {
    /// A user with a fresh random id, no email or password, created and
    /// updated now.
    fn default() -> (r: User)
        ensures
            is_v4(r.id),
            r.email@ == Seq::<char>::empty(),
            r.password@ == Seq::<char>::empty(),
            timestamp_in_range(r.created.seconds as int),
            timestamp_in_range(r.updated.seconds as int),
    {
        User {
            id: new_uuid(),
            email: String::new(),
            password: String::new(),
            created: utc_now(),
            updated: utc_now(),
        }
    }
}

/// The credentials a user logs in with.
#[derive(Debug, Clone)]
pub struct UserAuth {
    pub email: String,
    pub password: String,
}

impl Default for UserAuth {
    /// Empty credentials.
    fn default() -> (r: UserAuth)
        ensures
            r.email@ == Seq::<char>::empty(),
            r.password@ == Seq::<char>::empty(),
    {
        UserAuth { email: String::new(), password: String::new() }
    }
}

/// Who the session of a request belongs to.
#[derive(Debug)]
pub enum CurrentUser {
    Anonymous,
    Authenticated(User),
}

/// The identifier a session's identity names, if it names one.
pub fn session_user_id(identity: Option<&str>) -> (r: Option<u128>)
    ensures
        match identity {
            None => r is None,
            Some(t) => r == uuid_parsed(t@),
        },
{
    match identity {
        None => None,
        Some(t) => parse_uuid(t),
    }
}

/// What reading a request's session leads to: looking up the user with an
/// identifier, or an anonymous user, with the session's identity forgotten
/// when `forget` is set.
#[derive(Debug, Clone, Copy, PartialEq, Eq)]
pub enum SessionStep {
    LookUp(u128),
    Anonymous { forget: bool },
}

/// The first step of finding who a session belongs to.  `session` is the
/// session's identity: `None` when the session could not be read,
/// `Some(None)` when it holds no identity.  An identity that names a user
/// is looked up when the database is at hand; in every other case the user
/// is anonymous, and a session that could be read forgets its identity.
pub fn session_step(session: Option<Option<&str>>, has_database: bool) -> (r: SessionStep)
    ensures
        match session {
            None => r == SessionStep::Anonymous { forget: false },
            Some(identity) => match identity {
                None => r == SessionStep::Anonymous { forget: true },
                Some(t) => match uuid_parsed(t@) {
                    Some(id) => if has_database {
                        r == SessionStep::LookUp(id)
                    } else {
                        r == SessionStep::Anonymous { forget: true }
                    },
                    None => r == SessionStep::Anonymous { forget: true },
                },
            },
        },
{
    match session {
        None => SessionStep::Anonymous { forget: false },
        Some(identity) => match session_user_id(identity) {
            Some(id) => if has_database {
                SessionStep::LookUp(id)
            } else {
                SessionStep::Anonymous { forget: true }
            },
            None => SessionStep::Anonymous { forget: true },
        },
    }
}

/// The last step of finding who a session belongs to, from what looking
/// the user up found: the user, or an anonymous user whose session forgets
/// its identity.
pub fn session_user(found: Option<User>) -> (r: (CurrentUser, bool))
    ensures
        match found {
            Some(u) => r.0 == CurrentUser::Authenticated(u) && !r.1,
            None => r.0 == CurrentUser::Anonymous && r.1,
        },
{
    match found {
        Some(u) => (CurrentUser::Authenticated(u), false),
        None => (CurrentUser::Anonymous, true),
    }
}

/// Who the bearer token of a request belongs to.
#[derive(Debug)]
pub enum CurrentAuth {
    Unauthenticated,
    Authenticated(User),
}

/// `"Bearer "`: what an `Authorization` header starts with when it carries
/// a token.
pub open spec fn bearer_prefix() -> Seq<char> {
    seq!['B', 'e', 'a', 'r', 'e', 'r', ' ']
}

/// The token of an `Authorization` header: the header splits at its spaces
/// into exactly two parts, the first `Bearer` and the second the token.
pub open spec fn bearer_token_of(header: Seq<char>) -> Option<Seq<char>> {
    if header.len() >= 7 && header.take(7) == bearer_prefix() && (forall|j: int|
        7 <= j < header.len() ==> header[j] != ' ') {
        Some(header.skip(7))
    } else {
        None
    }
}

/// A header made of `"Bearer "` and a token without spaces carries that
/// token, whatever its length; and a header that carries a token is made
/// of `"Bearer "` and that token.
pub proof fn law_bearer_token(t: Seq<char>, header: Seq<char>)
    ensures
        (forall|j: int| 0 <= j < t.len() ==> t[j] != ' ') ==> bearer_token_of(bearer_prefix() + t)
            == Some(t),
        bearer_token_of(header) matches Some(x) ==> header == bearer_prefix() + x && (forall|j: int|
            0 <= j < x.len() ==> x[j] != ' '),
{
    let h = bearer_prefix() + t;
    assert(h.take(7) =~= bearer_prefix());
    assert(h.skip(7) =~= t);
    if forall|j: int| 0 <= j < t.len() ==> t[j] != ' ' {
        assert forall|j: int| 7 <= j < h.len() implies h[j] != ' ' by {
            assert(h[j] == t[j - 7]);
        }
    }
    if let Some(x) = bearer_token_of(header) {
        assert(header =~= header.take(7) + header.skip(7));
        assert forall|j: int| 0 <= j < x.len() implies x[j] != ' ' by {
            assert(x[j] == header[j + 7]);
        }
    }
}

/// The token of an `Authorization` header of the form `Bearer <token>`
/// (one space, the token itself without spaces); `None` for any other
/// header.
pub fn bearer_token(header: &str) -> (r: Option<&str>)
    ensures
        r is Some <==> bearer_token_of(header@) is Some,
        r matches Some(t) ==> bearer_token_of(header@) == Some(t@),
{
    let n = header.unicode_len();
    if n < 7 {
        return None;
    }
    let expected = ['B', 'e', 'a', 'r', 'e', 'r', ' '];
    let mut i: usize = 0;
    while i < 7
        invariant
            n == header@.len(),
            7 <= n,
            i <= 7,
            expected@ == bearer_prefix(),
            forall|j: int| 0 <= j < i ==> header@[j] == bearer_prefix()[j],
        decreases 7 - i,
    {
        if header.get_char(i) != expected[i] {
            proof {
                assert(header@.take(7)[i as int] != bearer_prefix()[i as int]);
            }
            return None;
        }
        i = i + 1;
    }
    proof {
        assert(header@.take(7) =~= bearer_prefix());
    }
    let mut k: usize = 7;
    while k < n
        invariant
            n == header@.len(),
            7 <= k <= n,
            forall|j: int| 7 <= j < k ==> header@[j] != ' ',
        decreases n - k,
    {
        if header.get_char(k) == ' ' {
            return None;
        }
        k = k + 1;
    }
    let token = header.substring_char(7, n);
    proof {
        assert(token@ =~= header@.skip(7));
    }
    Some(token)
}

/// What a token is issued with: the user's email, the issuer, the subject,
/// and when it was issued and when it expires (seconds since 1970).
#[derive(Debug, Clone)]
pub struct Claims {
    pub email: String,
    pub iss: String,
    pub sub: String,
    pub iat: i64,
    pub exp: i64,
}

/// A day, in seconds.
pub const SECONDS_PER_DAY: i64 = 86400;

impl Claims {
    /// Claims for `email`, issued by `localhost` for `auth`, issued now and
    /// expiring a day after a second reading of the clock.
    pub fn with_email(email: &str) -> (r: Claims)
        ensures
            r.email@ == email@,
            r.iss@ == "localhost"@,
            r.sub@ == "auth"@,
            timestamp_in_range(r.iat as int),
            timestamp_in_range(r.exp - SECONDS_PER_DAY),
    {
        let iat = local_now_timestamp();
        let later = local_now_timestamp();
        Claims {
            iss: owned("localhost"),
            sub: owned("auth"),
            email: owned(email),
            iat,
            exp: later + SECONDS_PER_DAY,
        }
    }
}

/// What a token says of its user: the email.
#[derive(Debug, Clone)]
pub struct SlimUser {
    pub email: String,
}

impl From<Claims> for SlimUser {
    fn from(claims: Claims) -> (r: SlimUser)
        ensures
            r == (SlimUser { email: claims.email }),
    {
        SlimUser { email: claims.email }
    }
}

impl FromSpecImpl<Claims> for SlimUser {
    open spec fn obeys_from_spec() -> bool {
        true
    }

    open spec fn from_spec(v: Claims) -> SlimUser {
        SlimUser { email: v.email }
    }
}

impl From<User> for SlimUser {
    fn from(user: User) -> (r: SlimUser)
        ensures
            r == (SlimUser { email: user.email }),
    {
        SlimUser { email: user.email }
    }
}

impl FromSpecImpl<User> for SlimUser {
    open spec fn obeys_from_spec() -> bool {
        true
    }

    open spec fn from_spec(v: User) -> SlimUser {
        SlimUser { email: v.email }
    }
}

} // verus!
