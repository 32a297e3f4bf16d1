//! Hardware addresses in their textual form.
//!
//! An address is written as six octets of two hex digits, with a colon or a
//! dash between them.  Its canonical form uses colons and upper-case digits,
//! and is the only form in which addresses are compared.

use vstd::prelude::*;
use crate::error::NamingError;
use crate::text::{chars_of, string_of};

verus! {

/// Number of characters of a written address: six octets, five separators.
pub const HWADDR_LEN: usize = 17;

pub open spec fn is_hex_digit(c: char) -> bool {
    ||| '0' <= c <= '9'
    ||| 'a' <= c <= 'f'
    ||| 'A' <= c <= 'F'
}

pub open spec fn is_separator(c: char) -> bool {
    c == ':' || c == '-'
}

/// What must stand at position `i` of an address whose first separator is `sep`.
pub open spec fn fits_at(c: char, i: int, sep: char) -> bool {
    if i % 3 == 2 {
        c == sep
    } else {
        is_hex_digit(c)
    }
}

/// `s` is six octets of two hex digits each, with the same separator,
/// a colon or a dash, between every two of them.
pub open spec fn is_hwaddr(s: Seq<char>) -> bool {
    &&& s.len() == HWADDR_LEN
    &&& is_separator(s[2])
    &&& forall|i: int| 0 <= i < HWADDR_LEN ==> fits_at(#[trigger] s[i], i, s[2])
}

/// The number that a hex digit stands for.
pub open spec fn hex_value(c: char) -> int {
    if '0' <= c <= '9' {
        c as int - '0' as int
    } else if 'a' <= c <= 'f' {
        c as int - 'a' as int + 10
    } else if 'A' <= c <= 'F' {
        c as int - 'A' as int + 10
    } else {
        0
    }
}

/// The value of the `k`-th octet of a written address.
pub open spec fn octet(s: Seq<char>, k: int) -> int {
    16 * hex_value(s[3 * k]) + hex_value(s[3 * k + 1])
}

/// The six octets that a written address denotes.
pub open spec fn octets(s: Seq<char>) -> Seq<int> {
    Seq::new(6, |k: int| octet(s, k))
}

/// The character that the canonical form has in place of `c`.
pub open spec fn canonical_char(c: char) -> char {
    match c {
        '-' => ':',
        'a' => 'A',
        'b' => 'B',
        'c' => 'C',
        'd' => 'D',
        'e' => 'E',
        'f' => 'F',
        _ => c,
    }
}

/// The canonical form of a written address.
pub open spec fn normalized(s: Seq<char>) -> Seq<char> {
    Seq::new(s.len(), |i: int| canonical_char(s[i]))
}

/// `s` is an address in canonical form: colons, and no lower-case digit.
pub open spec fn is_canonical(s: Seq<char>) -> bool {
    &&& is_hwaddr(s)
    &&& s[2] == ':'
    &&& forall|i: int| 0 <= i < s.len() ==> !('a' <= #[trigger] s[i] <= 'f')
}

fn hex_digit(c: char) -> (yes: bool)
    ensures
        yes == is_hex_digit(c),
{
    ('0' <= c && c <= '9') || ('a' <= c && c <= 'f') || ('A' <= c && c <= 'F')
}

fn to_canonical(c: char) -> (out: char)
    ensures
        out == canonical_char(c),
{
    match c {
        '-' => ':',
        'a' => 'A',
        'b' => 'B',
        'c' => 'C',
        'd' => 'D',
        'e' => 'E',
        'f' => 'F',
        _ => c,
    }
}

fn valid_chars(chars: &Vec<char>) -> (valid: bool)
    ensures
        valid == is_hwaddr(chars@),
{
    if chars.len() != HWADDR_LEN {
        return false;
    }
    let sep = chars[2];
    if sep != ':' && sep != '-' {
        return false;
    }
    let mut i: usize = 0;
    while i < HWADDR_LEN
        invariant
            i <= HWADDR_LEN,
            chars@.len() == HWADDR_LEN,
            sep == chars@[2],
            forall|j: int| 0 <= j < i ==> fits_at(#[trigger] chars@[j], j, sep),
        decreases HWADDR_LEN - i,
    {
        let c = chars[i];
        let fits = if i % 3 == 2 {
            c == sep
        } else {
            hex_digit(c)
        };
        if !fits {
            assert(!fits_at(chars@[i as int], i as int, chars@[2]));
            return false;
        }
        i += 1;
    }
    true
}

/// Tells whether `hwaddr` is a written hardware address.
pub fn hwaddr_valid(hwaddr: &str) -> (valid: bool)
    ensures
        valid == is_hwaddr(hwaddr@),
{
    let chars = chars_of(hwaddr);
    valid_chars(&chars)
}

/// Brings a written hardware address into canonical form, and turns down
/// every other text.
pub fn hwaddr_normalize(hwaddr: &str) -> (r: Result<String, NamingError>)
    ensures
        match r {
            Ok(addr) => is_hwaddr(hwaddr@) && addr@ == normalized(hwaddr@),
            Err(e) => !is_hwaddr(hwaddr@) && e == NamingError::InvalidHwaddr,
        },
{
    let mut chars = chars_of(hwaddr);
    if !valid_chars(&chars) {
        return Err(NamingError::InvalidHwaddr);
    }
    let mut i: usize = 0;
    while i < chars.len()
        invariant
            i <= chars.len(),
            chars@.len() == hwaddr@.len(),
            forall|j: int| 0 <= j < i ==> chars@[j] == canonical_char(hwaddr@[j]),
            forall|j: int| i <= j < chars.len() ==> chars@[j] == hwaddr@[j],
        decreases chars.len() - i,
    {
        let c = to_canonical(chars[i]);
        chars.set(i, c);
        i += 1;
    }
    assert(chars@ =~= normalized(hwaddr@));
    Ok(string_of(&chars))
}

/// A written address holds only ASCII characters.
pub proof fn hwaddr_is_ascii(s: Seq<char>)
    requires
        is_hwaddr(s),
    ensures
        vstd::utf8::is_ascii_chars(s),
{
    assert forall|i: int| 0 <= i < s.len() implies '\0' <= #[trigger] s[i] <= '\u{7f}' by {
        assert(fits_at(s[i], i, s[2]));
    }
}

/// The canonical form of an address is an address in canonical form, and it
/// denotes the same octets.
pub proof fn normalized_is_canonical(s: Seq<char>)
    requires
        is_hwaddr(s),
    ensures
        is_canonical(normalized(s)),
        octets(normalized(s)) == octets(s),
{
    let n = normalized(s);
    assert(fits_at(s[2], 2, s[2]));
    assert forall|i: int| 0 <= i < HWADDR_LEN implies fits_at(#[trigger] n[i], i, n[2]) by {
        assert(fits_at(s[i], i, s[2]));
    }
    assert forall|k: int| 0 <= k < 6 implies octet(n, k) == octet(s, k) by {
        assert(fits_at(s[3 * k], 3 * k, s[2]));
        assert(fits_at(s[3 * k + 1], 3 * k + 1, s[2]));
    }
    assert(octets(n) =~= octets(s));
}

/// An address that is already in canonical form is left as it is.
pub proof fn canonical_is_fixed(a: Seq<char>)
    requires
        is_canonical(a),
    ensures
        normalized(a) == a,
{
    assert forall|i: int| 0 <= i < a.len() implies canonical_char(#[trigger] a[i]) == a[i] by {
        assert(fits_at(a[i], i, a[2]));
    }
    assert(normalized(a) =~= a);
}

/// Two written addresses have the same canonical form exactly when they
/// denote the same octets, whatever separator and letter case each uses.
pub proof fn same_address_same_form(s1: Seq<char>, s2: Seq<char>)
    requires
        is_hwaddr(s1),
        is_hwaddr(s2),
    ensures
        octets(s1) == octets(s2) <==> normalized(s1) == normalized(s2),
{
    let n1 = normalized(s1);
    let n2 = normalized(s2);
    if octets(s1) == octets(s2) {
        assert forall|i: int| 0 <= i < HWADDR_LEN implies n1[i] == n2[i] by {
            assert(fits_at(s1[i], i, s1[2]));
            assert(fits_at(s2[i], i, s2[2]));
            assert(fits_at(s1[2], 2, s1[2]));
            assert(fits_at(s2[2], 2, s2[2]));
            if i % 3 != 2 {
                let k = i / 3;
                assert(fits_at(s1[3 * k], 3 * k, s1[2]));
                assert(fits_at(s1[3 * k + 1], 3 * k + 1, s1[2]));
                assert(fits_at(s2[3 * k], 3 * k, s2[2]));
                assert(fits_at(s2[3 * k + 1], 3 * k + 1, s2[2]));
                assert(octets(s1)[k] == octets(s2)[k]);
                assert(octet(s1, k) == octet(s2, k));
                assert(hex_value(s1[i]) == hex_value(s2[i]));
            }
        }
        assert(n1 =~= n2);
    }
    if n1 == n2 {
        normalized_is_canonical(s1);
        normalized_is_canonical(s2);
    }
}

} // verus!
