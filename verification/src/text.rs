//! Character-level helpers shared by the configuration tree: splitting dotted
//! keys, reading decimal integers the way `str::parse` does, and writing them
//! back out.
use vstd::prelude::*;

verus! {

// ---------------------------------------------------------------------------
// Dotted keys
// ---------------------------------------------------------------------------

/// `i` is the position of the first `'.'` in `s`.
pub open spec fn is_first_dot(s: Seq<char>, i: int) -> bool {
    &&& 0 <= i < s.len()
    &&& s[i] == '.'
    &&& forall|j: int| 0 <= j < i ==> s[j] != '.'
}

/// The position of the first `'.'` in `s`, if there is one.
pub open spec fn first_dot(s: Seq<char>) -> Option<int> {
    if exists|i: int| is_first_dot(s, i) {
        Some(choose|i: int| is_first_dot(s, i))
    } else {
        None
    }
}

/// The segment of a dotted key before its first `'.'` (the whole key when
/// there is no dot).
pub open spec fn key_head(s: Seq<char>) -> Seq<char> {
    match first_dot(s) {
        Some(i) => s.take(i),
        None => s,
    }
}

/// What follows the first `'.'` of a dotted key, if the key has a dot.
pub open spec fn key_rest(s: Seq<char>) -> Option<Seq<char>> {
    match first_dot(s) {
        Some(i) => Some(s.skip(i + 1)),
        None => None,
    }
}

/// A key with its first `'.'` taken out (the key itself when it has none).
pub open spec fn key_without_first_dot(s: Seq<char>) -> Seq<char> {
    match key_rest(s) {
        Some(r) => key_head(s) + r,
        None => s,
    }
}

/// There is only one first dot.
pub proof fn lemma_first_dot_unique(s: Seq<char>, i: int, j: int)
    requires
        is_first_dot(s, i),
        is_first_dot(s, j),
    ensures
        i == j,
{
}

/// Both parts of a key with a dot are shorter than the key.
pub proof fn lemma_key_parts_shorter(s: Seq<char>)
    ensures
        key_head(s).len() <= s.len(),
        key_rest(s) matches Some(r) ==> r.len() < s.len() && key_head(s).len() < s.len(),
        key_without_first_dot(s).len() <= s.len(),
        key_rest(s) is Some ==> key_without_first_dot(s).len() < s.len(),
{
    if let Some(i) = first_dot(s) {
        assert(is_first_dot(s, i));
    }
}

/// Splits a dotted key at its first `'.'`.
pub fn split_key<'a>(key: &'a str) -> (r: (&'a str, Option<&'a str>))
    ensures
        r.0@ == key_head(key@),
        r.1 is Some <==> key_rest(key@) is Some,
        r.1 matches Some(t) ==> key_rest(key@) == Some(t@),
{
    let n = key.unicode_len();
    let mut i: usize = 0;
    while i < n
        invariant
            n == key@.len(),
            i <= n,
            forall|j: int| 0 <= j < i ==> key@[j] != '.',
        decreases n - i,
    {
        let c = key.get_char(i);
        if c == '.' {
            proof {
                assert(is_first_dot(key@, i as int));
                let k = choose|k: int| is_first_dot(key@, k);
                lemma_first_dot_unique(key@, i as int, k);
            }
            let head = key.substring_char(0, i);
            let rest = key.substring_char(i + 1, n);
            proof {
                assert(head@ =~= key@.take(i as int));
                assert(rest@ =~= key@.skip(i + 1));
            }
            return (head, Some(rest));
        }
        i = i + 1;
    }
    proof {
        assert forall|k: int| !is_first_dot(key@, k) by {}
    }
    (key, None)
}

// ---------------------------------------------------------------------------
// Appending characters
// ---------------------------------------------------------------------------

/// `String::push`: appends one character.
#[verifier::external_body]
pub(crate) fn push_char(s: &mut String, c: char)
    ensures
        final(s)@ == old(s)@.push(c),
{
    s.push(c);
}

/// Builds an owned string from a string slice.
pub fn owned(s: &str) -> (r: String)
    ensures
        r@ == s@,
{
    let mut r = String::new();
    r.append(s);
    r
}

// ---------------------------------------------------------------------------
// Decimal integers
// ---------------------------------------------------------------------------

/// The ways in which reading a decimal integer can fail, as `str::parse`
/// reports them for integer types.
#[derive(Clone, Copy, Debug, PartialEq, Eq)]
pub enum IntErrorKind {
    Empty,
    InvalidDigit,
    PosOverflow,
    NegOverflow,
}

/// The message that `ParseIntError` displays for each kind of failure.
pub open spec fn int_error_message(k: IntErrorKind) -> Seq<char> {
    match k {
        IntErrorKind::Empty => "cannot parse integer from empty string"@,
        IntErrorKind::InvalidDigit => "invalid digit found in string"@,
        IntErrorKind::PosOverflow => "number too large to fit in target type"@,
        IntErrorKind::NegOverflow => "number too small to fit in target type"@,
    }
}

/// The message of a failed integer read, as an owned string.
pub fn int_error_text(k: IntErrorKind) -> (r: String)
    ensures
        r@ == int_error_message(k),
{
    match k {
        IntErrorKind::Empty => owned("cannot parse integer from empty string"),
        IntErrorKind::InvalidDigit => owned("invalid digit found in string"),
        IntErrorKind::PosOverflow => owned("number too large to fit in target type"),
        IntErrorKind::NegOverflow => owned("number too small to fit in target type"),
    }
}

pub open spec fn is_digit(c: char) -> bool {
    '0' <= c <= '9'
}

pub open spec fn digit_value(c: char) -> int {
    c as int - '0' as int
}

/// Reads the digits of `d` from left to right; fails at the first character
/// that is not a digit, or at the first prefix whose value exceeds `bound`.
pub open spec fn scan_digits(d: Seq<char>, bound: int, overflow: IntErrorKind) -> Result<
    int,
    IntErrorKind,
>
    decreases d.len(),
{
    if d.len() == 0 {
        Ok(0)
    } else {
        match scan_digits(d.drop_last(), bound, overflow) {
            Err(e) => Err(e),
            Ok(v) => {
                if !is_digit(d.last()) {
                    Err(IntErrorKind::InvalidDigit)
                } else if v * 10 + digit_value(d.last()) > bound {
                    Err(overflow)
                } else {
                    Ok(v * 10 + digit_value(d.last()))
                }
            },
        }
    }
}

/// What `str::parse` gives for an integer type whose values run from
/// `-neg_bound` to `pos_bound` (`signed` says whether a leading `'-'` is
/// accepted as a sign).
pub open spec fn spec_parse_int(s: Seq<char>, signed: bool, pos_bound: int, neg_bound: int) -> Result<
    int,
    IntErrorKind,
> {
    if s.len() == 0 {
        Err(IntErrorKind::Empty)
    } else if s.len() == 1 && (s[0] == '+' || s[0] == '-') {
        Err(IntErrorKind::InvalidDigit)
    } else if s[0] == '+' {
        scan_digits(s.skip(1), pos_bound, IntErrorKind::PosOverflow)
    } else if s[0] == '-' && signed {
        match scan_digits(s.skip(1), neg_bound, IntErrorKind::NegOverflow) {
            Ok(m) => Ok(-m),
            Err(e) => Err(e),
        }
    } else {
        scan_digits(s, pos_bound, IntErrorKind::PosOverflow)
    }
}

pub proof fn lemma_scan_nonneg(d: Seq<char>, bound: int, overflow: IntErrorKind)
    requires
        bound >= 0,
    ensures
        scan_digits(d, bound, overflow) matches Ok(v) ==> 0 <= v <= bound,
    decreases d.len(),
{
    if d.len() > 0 {
        lemma_scan_nonneg(d.drop_last(), bound, overflow);
    }
}

/// An unsigned read gives a value between zero and the bound.
pub proof fn lemma_parse_unsigned_range(s: Seq<char>, bound: int)
    requires
        bound >= 0,
    ensures
        spec_parse_int(s, false, bound, 0) matches Ok(v) ==> 0 <= v <= bound,
{
    if s.len() > 0 {
        lemma_scan_nonneg(s.skip(1), bound, IntErrorKind::PosOverflow);
        lemma_scan_nonneg(s, bound, IntErrorKind::PosOverflow);
    }
}

/// Reads the digits of `s` from position `start`, as `scan_digits` says.
fn scan_digits_exec(s: &str, start: usize, bound: u128, overflow: IntErrorKind) -> (r: Result<
    u128,
    IntErrorKind,
>)
    requires
        start <= s@.len(),
    ensures
        match r {
            Ok(v) => scan_digits(s@.skip(start as int), bound as int, overflow) == Ok::<
                int,
                IntErrorKind,
            >(v as int),
            Err(e) => scan_digits(s@.skip(start as int), bound as int, overflow) == Err::<
                int,
                IntErrorKind,
            >(e),
        },
{
    let n = s.unicode_len();
    let ghost d = s@.skip(start as int);
    let mut acc: u128 = 0;
    let mut i: usize = start;
    assert(d.take(0) =~= Seq::<char>::empty());
    while i < n
        invariant
            n == s@.len(),
            start <= i <= n,
            d == s@.skip(start as int),
            scan_digits(d.take(i - start), bound as int, overflow) == Ok::<int, IntErrorKind>(
                acc as int,
            ),
            acc <= bound,
        decreases n - i,
    {
        let c = s.get_char(i);
        let ghost pre = d.take(i - start);
        let ghost next = d.take(i + 1 - start);
        assert(next.drop_last() =~= pre);
        assert(next.last() == c);
        if !('0' <= c && c <= '9') {
            assert(scan_digits(next, bound as int, overflow) == Err::<int, IntErrorKind>(
                IntErrorKind::InvalidDigit,
            ));
            proof { lemma_scan_prefix_err(d, (i + 1 - start) as int, bound as int, overflow); }
            return Err(IntErrorKind::InvalidDigit);
        }
        let dv = (c as u32 - '0' as u32) as u128;
        assert(dv as int == digit_value(c));
        let grown = match acc.checked_mul(10) {
            Some(m) => m.checked_add(dv),
            None => None,
        };
        match grown {
            Some(w) if w <= bound => {
                acc = w;
            },
            _ => {
                assert(acc * 10 + digit_value(c) > bound);
                proof { lemma_scan_prefix_err(d, (i + 1 - start) as int, bound as int, overflow); }
                return Err(overflow);
            },
        }
        i = i + 1;
    }
    assert(d.take(n - start) =~= d);
    Ok(acc)
}

/// Once a prefix of the digits fails, the whole scan fails the same way.
proof fn lemma_scan_prefix_err(d: Seq<char>, k: int, bound: int, overflow: IntErrorKind)
    requires
        0 <= k <= d.len(),
        scan_digits(d.take(k), bound, overflow) is Err,
    ensures
        scan_digits(d, bound, overflow) == scan_digits(d.take(k), bound, overflow),
    decreases d.len() - k,
{
    if k < d.len() {
        let next = d.take(k + 1);
        assert(next.drop_last() =~= d.take(k));
        lemma_scan_prefix_err(d, k + 1, bound, overflow);
    } else {
        assert(d.take(k) =~= d);
    }
}

/// Reads a decimal integer the way `str::parse` does for an integer type
/// whose values run from `-neg_bound` to `pos_bound`; on success returns
/// whether the value is negative and its magnitude.
pub fn parse_magnitude(s: &str, signed: bool, pos_bound: u128, neg_bound: u128) -> (r: Result<
    (bool, u128),
    IntErrorKind,
>)
    ensures
        match r {
            Ok((neg, m)) => spec_parse_int(s@, signed, pos_bound as int, neg_bound as int)
                == Ok::<int, IntErrorKind>(if neg { -(m as int) } else { m as int }) && (neg
                ==> signed && m <= neg_bound) && (!neg ==> m <= pos_bound),
            Err(e) => spec_parse_int(s@, signed, pos_bound as int, neg_bound as int) == Err::<
                int,
                IntErrorKind,
            >(e),
        },
{
    let n = s.unicode_len();
    if n == 0 {
        return Err(IntErrorKind::Empty);
    }
    let first = s.get_char(0);
    if n == 1 && (first == '+' || first == '-') {
        return Err(IntErrorKind::InvalidDigit);
    }
    if first == '+' {
        match scan_digits_exec(s, 1, pos_bound, IntErrorKind::PosOverflow) {
            Ok(m) => {
                proof { lemma_scan_nonneg(s@.skip(1), pos_bound as int, IntErrorKind::PosOverflow); }
                Ok((false, m))
            },
            Err(e) => Err(e),
        }
    } else if first == '-' && signed {
        match scan_digits_exec(s, 1, neg_bound, IntErrorKind::NegOverflow) {
            Ok(m) => {
                proof { lemma_scan_nonneg(s@.skip(1), neg_bound as int, IntErrorKind::NegOverflow); }
                Ok((true, m))
            },
            Err(e) => Err(e),
        }
    } else {
        assert(s@.skip(0) =~= s@);
        match scan_digits_exec(s, 0, pos_bound, IntErrorKind::PosOverflow) {
            Ok(m) => {
                proof { lemma_scan_nonneg(s@, pos_bound as int, IntErrorKind::PosOverflow); }
                Ok((false, m))
            },
            Err(e) => Err(e),
        }
    }
}

/// `str::parse::<usize>`.
pub fn parse_usize(s: &str) -> (r: Result<usize, IntErrorKind>)
    ensures
        match r {
            Ok(v) => spec_parse_int(s@, false, usize::MAX as int, 0) == Ok::<int, IntErrorKind>(
                v as int,
            ),
            Err(e) => spec_parse_int(s@, false, usize::MAX as int, 0) == Err::<int, IntErrorKind>(
                e,
            ),
        },
{
    match parse_magnitude(s, false, usize::MAX as u128, 0) {
        Ok((_, m)) => Ok(m as usize),
        Err(e) => Err(e),
    }
}

// ---------------------------------------------------------------------------
// Writing decimal integers
// ---------------------------------------------------------------------------

pub open spec fn digit_char(d: nat) -> char
    recommends
        d < 10,
{
    (('0' as int) + d) as char
}

/// The decimal digits of `n`, most significant first, without leading zeros.
pub open spec fn decimal(n: nat) -> Seq<char>
    decreases n,
{
    if n < 10 {
        seq![digit_char(n)]
    } else {
        decimal(n / 10).push(digit_char(n % 10))
    }
}

/// How `to_string` writes a signed integer.
pub open spec fn signed_decimal(i: int) -> Seq<char> {
    if i < 0 {
        seq!['-'] + decimal((-i) as nat)
    } else {
        decimal(i as nat)
    }
}

fn digit_of(d: u128) -> (c: char)
    requires
        d < 10,
    ensures
        c == digit_char(d as nat),
{
    match d {
        0 => '0',
        1 => '1',
        2 => '2',
        3 => '3',
        4 => '4',
        5 => '5',
        6 => '6',
        7 => '7',
        8 => '8',
        _ => '9',
    }
}

/// Appends the decimal digits of `n`.
pub fn write_decimal(out: &mut String, n: u128)
    ensures
        final(out)@ == old(out)@ + decimal(n as nat),
    decreases n,
{
    if n >= 10 {
        write_decimal(out, n / 10);
    }
    let c = digit_of(n % 10);
    push_char(out, c);
    assert(decimal(n as nat) == if n < 10 {
        seq![digit_char(n as nat)]
    } else {
        decimal((n / 10) as nat).push(digit_char((n % 10) as nat))
    });
}

/// `to_string` of an unsigned integer.
pub fn unsigned_text(n: u128) -> (r: String)
    ensures
        r@ == decimal(n as nat),
{
    let mut r = String::new();
    write_decimal(&mut r, n);
    r
}

/// `to_string` of a signed integer.
pub fn signed_text(i: i128) -> (r: String)
    ensures
        r@ == signed_decimal(i as int),
{
    let mut r = String::new();
    if i < 0 {
        push_char(&mut r, '-');
        let m: u128 = if i == i128::MIN {
            0x8000_0000_0000_0000_0000_0000_0000_0000u128
        } else {
            (-i) as u128
        };
        write_decimal(&mut r, m);
    } else {
        write_decimal(&mut r, i as u128);
    }
    r
}

} // verus!
