//! The text form of session identifiers: ULIDs, written as 26 Crockford
//! base-32 digits, most significant first.

use vstd::prelude::*;

use crate::model::SessionId;

verus! {

/// The Crockford base-32 digit for `d` (0 to 31): `0-9`, then the upper-case
/// letters other than I, L, O and U.
pub open spec fn crockford_char(d: int) -> char {
    if d < 10 {
        ('0' as int + d) as char
    } else if d < 18 {
        ('A' as int + d - 10) as char
    } else if d < 20 {
        ('A' as int + d - 9) as char
    } else if d < 22 {
        ('A' as int + d - 8) as char
    } else if d < 27 {
        ('A' as int + d - 7) as char
    } else {
        ('A' as int + d - 6) as char
    }
}

/// The value of a Crockford digit, read in either case.
pub open spec fn crockford_value(c: char) -> int {
    let u = if 'a' <= c <= 'z' {
        c as int - 32
    } else {
        c as int
    };
    if u < 'A' as int {
        u - '0' as int
    } else if u < 'I' as int {
        u - 'A' as int + 10
    } else if u < 'L' as int {
        u - 'A' as int + 9
    } else if u < 'O' as int {
        u - 'A' as int + 8
    } else if u < 'U' as int {
        u - 'A' as int + 7
    } else {
        u - 'A' as int + 6
    }
}

/// A Crockford base-32 digit in either case: `0-9` and the letters other
/// than I, L, O and U.
pub open spec fn is_crockford_digit(c: char) -> bool {
    ||| '0' <= c <= '9'
    ||| ('A' <= c <= 'Z' && c != 'I' && c != 'L' && c != 'O' && c != 'U')
    ||| ('a' <= c <= 'z' && c != 'i' && c != 'l' && c != 'o' && c != 'u')
}

/// A well-formed ULID text: exactly 26 Crockford digits.
pub open spec fn is_ulid_text(t: Seq<char>) -> bool {
    &&& t.len() == 26
    &&& forall|i: int| 0 <= i < t.len() ==> is_crockford_digit(#[trigger] t[i])
}

/// The last `n` base-32 digits of `v`, most significant first.
pub open spec fn base32_digits(v: int, n: nat) -> Seq<char>
    decreases n,
{
    if n == 0 {
        Seq::empty()
    } else {
        base32_digits(v / 32, (n - 1) as nat).push(crockford_char(v % 32))
    }
}

/// The number a run of Crockford digits spells, most significant first.
pub open spec fn base32_number(t: Seq<char>) -> int
    decreases t.len(),
{
    if t.len() == 0 {
        0
    } else {
        base32_number(t.drop_last()) * 32 + crockford_value(t.last())
    }
}

/// The text of a ULID: its 128 bits as 26 upper-case digits (the first one
/// carries the top three bits).
pub open spec fn ulid_text(value: u128) -> Seq<char> {
    base32_digits(value as int, 26)
}

/// The value a ULID text is read as: the number its digits spell, cut to
/// 128 bits.
pub open spec fn ulid_value(text: Seq<char>) -> u128 {
    (base32_number(text) % (u128::MAX as int + 1)) as u128
}

/// `32` to the `n`.
pub open spec fn pow32(n: nat) -> int
    decreases n,
{
    if n == 0 {
        1
    } else {
        32 * pow32((n - 1) as nat)
    }
}

proof fn lemma_crockford_char(d: int)
    requires
        0 <= d < 32,
    ensures
        is_crockford_digit(crockford_char(d)),
        crockford_value(crockford_char(d)) == d,
        !('a' <= crockford_char(d) <= 'z'),
{
}

proof fn lemma_digits(v: int, n: nat)
    requires
        0 <= v < pow32(n),
    ensures
        base32_digits(v, n).len() == n,
        forall|i: int| 0 <= i < n ==> is_crockford_digit(#[trigger] base32_digits(v, n)[i]),
        base32_number(base32_digits(v, n)) == v,
    decreases n,
{
    if n > 0 {
        let m = (n - 1) as nat;
        let q = v / 32;
        let r = v % 32;
        assert(0 <= q < pow32(m) && 0 <= r < 32 && v == q * 32 + r) by (nonlinear_arith)
            requires
                0 <= v < 32 * pow32(m),
                q == v / 32,
                r == v % 32,
        ;
        lemma_digits(q, m);
        lemma_crockford_char(r);
        let t = base32_digits(v, n);
        assert(t.drop_last() == base32_digits(q, m));
    }
}

/// Reading a ULID's text gives back the ULID, and the text is well-formed.
pub proof fn lemma_ulid_roundtrip(value: u128)
    ensures
        is_ulid_text(ulid_text(value)),
        ulid_value(ulid_text(value)) == value,
{
    assert(pow32(26) == 0x4_0000_0000_0000_0000_0000_0000_0000_0000) by {
        reveal_with_fuel(pow32, 27);
    }
    lemma_digits(value as int, 26);
}

/// `ulid::Ulid::to_string`: the ULID's 26-digit text.
#[verifier::external_body]
fn ulid_encode(value: u128) -> (s: String)
    ensures
        s@ == ulid_text(value),
{
    ulid::Ulid(value).to_string()
}

/// `ulid::Ulid::from_string`: succeeds exactly on 26 Crockford digits (of
/// either case), and reads the number they spell, cut to 128 bits.
#[verifier::external_body]
fn ulid_decode(s: &str) -> (r: Option<u128>)
    ensures
        r is Some <==> is_ulid_text(s@),
        r matches Some(v) ==> v == ulid_value(s@),
{
    match ulid::Ulid::from_string(s) {
        Ok(u) => Some(u.0),
        Err(_) => None,
    }
}

impl SessionId {
    /// The ULID text of the identifier.
    pub fn to_text(&self) -> (s: String)
        ensures
            s@ == ulid_text(self.value),
            is_ulid_text(s@),
    {
        proof {
            lemma_ulid_roundtrip(self.value);
        }
        ulid_encode(self.value)
    }

    /// Reads a ULID text; `None` unless it is 26 Crockford digits.
    pub fn parse(s: &str) -> (r: Option<SessionId>)
        ensures
            r is Some <==> is_ulid_text(s@),
            r matches Some(id) ==> id.value == ulid_value(s@),
    {
        match ulid_decode(s) {
            Some(v) => Some(SessionId { value: v }),
            None => None,
        }
    }
}

/// The 32 digits are the upper-case Crockford digits in increasing order
/// (so they are `0-9` then `A-Z` without I, L, O and U), each read back as
/// its own value, and a digit reads the same in either case.
pub proof fn lemma_crockford_digits(d: int, e: int, c: char)
    requires
        0 <= d < 32,
        0 <= e < 32,
    ensures
        d < e ==> crockford_char(d) < crockford_char(e),
        is_crockford_digit(crockford_char(d)),
        !('a' <= crockford_char(d) <= 'z'),
        crockford_value(crockford_char(d)) == d,
        crockford_char(0) == '0',
        crockford_char(9) == '9',
        crockford_char(10) == 'A',
        crockford_char(31) == 'Z',
        'a' <= c <= 'z' ==> crockford_value(c) == crockford_value(((c as int) - 32) as char),
{
    lemma_crockford_char(d);
}

} // verus!
