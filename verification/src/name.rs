//! Prefixes and link names.
//!
//! A link name is a prefix, chosen by the operator, followed by a number in
//! decimal.  The prefix is made of letters; the number fits in 64 bits.

use vstd::prelude::*;
use crate::text::{chars_of, same_chars, string_of};

verus! {

/// Most characters that a prefix may have.
pub const PREFIX_MAX_LEN: usize = 14;

pub open spec fn is_digit(c: char) -> bool {
    '0' <= c <= '9'
}

pub open spec fn is_letter(c: char) -> bool {
    'a' <= c <= 'z' || 'A' <= c <= 'Z'
}

/// The number that a decimal digit stands for.
pub open spec fn digit_value(c: char) -> nat {
    (c as int - '0' as int) as nat
}

/// The digit that stands for `d`, for `d` below ten.
pub open spec fn digit_char(d: u8) -> char {
    match d {
        0 => '0',
        1 => '1',
        2 => '2',
        3 => '3',
        4 => '4',
        5 => '5',
        6 => '6',
        7 => '7',
        8 => '8',
        _ => '9',
    }
}

/// `s` is a run of decimal digits, at least one.
pub open spec fn is_number(s: Seq<char>) -> bool {
    &&& s.len() > 0
    &&& forall|i: int| 0 <= i < s.len() ==> is_digit(#[trigger] s[i])
}

/// The number that a run of decimal digits stands for.
pub open spec fn number_value(s: Seq<char>) -> nat
    decreases s.len(),
{
    if s.len() == 0 {
        0
    } else {
        10 * number_value(s.drop_last()) + digit_value(s.last())
    }
}

/// `n` written in decimal, without leading zeros.
pub open spec fn decimal(n: nat) -> Seq<char>
    decreases n,
{
    if n < 10 {
        seq![digit_char(n as u8)]
    } else {
        decimal(n / 10).push(digit_char((n % 10) as u8))
    }
}

/// `s` is made of letters: at least one, and no more than a prefix may have.
pub open spec fn is_prefix(s: Seq<char>) -> bool {
    &&& 0 < s.len() <= PREFIX_MAX_LEN
    &&& forall|i: int| 0 <= i < s.len() ==> is_letter(#[trigger] s[i])
}

/// The prefixes that the kernel and other naming tools hand out themselves.
pub open spec fn reserved(prefix: Seq<char>) -> bool {
    ||| prefix == seq!['e', 't', 'h']
    ||| prefix == seq!['e', 'n', 'o']
    ||| prefix == seq!['e', 'n', 's']
    ||| prefix == seq!['e', 'm']
}

/// The number that a run of digits stands for, where it fits in 64 bits.
pub open spec fn number_in(digits: Seq<char>) -> Option<nat> {
    if is_number(digits) && number_value(digits) <= u64::MAX {
        Some(number_value(digits))
    } else {
        None
    }
}

/// The number that `name` carries behind `prefix`, where it is `prefix`
/// followed by a run of digits whose value fits in 64 bits.
pub open spec fn name_index(prefix: Seq<char>, name: Seq<char>) -> Option<nat> {
    if name.len() > prefix.len() && name.take(prefix.len() as int) == prefix {
        number_in(name.skip(prefix.len() as int))
    } else {
        None
    }
}

/// The name with number `n` under `prefix`.
pub open spec fn link_name(prefix: Seq<char>, n: nat) -> Seq<char> {
    prefix + decimal(n)
}

/// `name` is a prefix that is not reserved, followed by a number.
pub open spec fn is_link_name(name: Seq<char>) -> bool {
    exists|k: int| splits_at(name, k)
}

/// The first `k` characters of `name` are its prefix, the rest its number.
pub open spec fn splits_at(name: Seq<char>, k: int) -> bool {
    &&& 0 < k < name.len()
    &&& is_prefix(name.take(k))
    &&& !reserved(name.take(k))
    &&& name_index(name.take(k), name) is Some
}

/// A shorter run of leading digits never stands for more than the whole.
pub proof fn number_grows(s: Seq<char>, i: int)
    requires
        0 <= i <= s.len(),
    ensures
        number_value(s.take(i)) <= number_value(s),
    decreases s.len() - i,
{
    if i < s.len() {
        number_grows(s, i + 1);
        assert(s.take(i + 1).drop_last() =~= s.take(i));
    } else {
        assert(s.take(i) =~= s);
    }
}

/// Reading a number that was written in decimal gives the number back.
pub proof fn decimal_reads_back(n: nat)
    ensures
        is_number(decimal(n)),
        number_value(decimal(n)) == n,
    decreases n,
{
    let s = decimal(n);
    if n < 10 {
        assert(s.drop_last() =~= Seq::<char>::empty());
        assert(number_value(s.drop_last()) == 0);
    } else {
        decimal_reads_back(n / 10);
        assert(s.drop_last() =~= decimal(n / 10));
    }
}

/// The name with number `n` under a prefix carries `n` behind that prefix.
pub proof fn link_name_carries_index(prefix: Seq<char>, n: nat)
    requires
        n <= u64::MAX,
    ensures
        name_index(prefix, link_name(prefix, n)) == Some(n),
{
    decimal_reads_back(n);
    let name = link_name(prefix, n);
    assert(name.take(prefix.len() as int) =~= prefix);
    assert(name.skip(prefix.len() as int) =~= decimal(n));
}

fn digit(c: char) -> (yes: bool)
    ensures
        yes == is_digit(c),
{
    '0' <= c && c <= '9'
}

fn letter(c: char) -> (yes: bool)
    ensures
        yes == is_letter(c),
{
    ('a' <= c && c <= 'z') || ('A' <= c && c <= 'Z')
}

fn digit_to_char(d: u8) -> (c: char)
    requires
        d < 10,
    ensures
        c == digit_char(d),
{
    match d {
        0 => '0',
        1 => '1',
        2 => '2',
        3 => '3',
        4 => '4',
        5 => '5',
        6 => '6',
        7 => '7',
        8 => '8',
        _ => '9',
    }
}

fn reserved_chars(prefix: &Vec<char>) -> (yes: bool)
    ensures
        yes == reserved(prefix@),
{
    let eth = vec!['e', 't', 'h'];
    let eno = vec!['e', 'n', 'o'];
    let ens = vec!['e', 'n', 's'];
    let em = vec!['e', 'm'];
    assert(eth@ =~= seq!['e', 't', 'h']);
    assert(eno@ =~= seq!['e', 'n', 'o']);
    assert(ens@ =~= seq!['e', 'n', 's']);
    assert(em@ =~= seq!['e', 'm']);
    same_chars(prefix, &eth) || same_chars(prefix, &eno) || same_chars(prefix, &ens)
        || same_chars(prefix, &em)
}

/// Tells whether `prefix` is free for the operator to use: it is none of
/// the prefixes that the kernel and other naming tools hand out.
pub fn prefix_allowed(prefix: &str) -> (allowed: bool)
    ensures
        allowed == !reserved(prefix@),
{
    let chars = chars_of(prefix);
    !reserved_chars(&chars)
}

/// Reads the run of digits that `chars` holds from position `from` on.
fn read_number(chars: &Vec<char>, from: usize) -> (r: Option<u64>)
    requires
        from <= chars.len(),
    ensures
        match r {
            Some(v) => number_in(chars@.skip(from as int)) == Some(v as nat),
            None => number_in(chars@.skip(from as int)) is None,
        },
{
    let ghost digits = chars@.skip(from as int);
    if from == chars.len() {
        return None;
    }
    let mut value: u64 = 0;
    let mut i: usize = from;
    while i < chars.len()
        invariant
            from <= i <= chars.len(),
            digits == chars@.skip(from as int),
            forall|j: int| 0 <= j < i - from ==> is_digit(#[trigger] digits[j]),
            value == number_value(digits.take(i - from)),
        decreases chars.len() - i,
    {
        let c = chars[i];
        if !digit(c) {
            assert(!is_digit(digits[i - from]));
            return None;
        }
        let d: u64 = (c as u32 - '0' as u32) as u64;
        proof {
            assert(digits.take(i - from + 1).drop_last() =~= digits.take(i - from));
            assert(number_value(digits.take(i - from + 1)) == 10 * value + d);
            number_grows(digits, i - from + 1);
        }
        if value > (u64::MAX - d) / 10 {
            return None;
        }
        value = value * 10 + d;
        i += 1;
    }
    assert(digits.take(i - from) =~= digits);
    Some(value)
}

fn index_of_chars(prefix: &Vec<char>, name: &Vec<char>) -> (r: Option<u64>)
    ensures
        match r {
            Some(v) => name_index(prefix@, name@) == Some(v as nat),
            None => name_index(prefix@, name@) is None,
        },
{
    let n = prefix.len();
    if name.len() <= n {
        return None;
    }
    let mut i: usize = 0;
    while i < n
        invariant
            i <= n,
            n == prefix.len(),
            n < name.len(),
            name@.take(i as int) == prefix@.take(i as int),
        decreases n - i,
    {
        if name[i] != prefix[i] {
            assert(name@.take(n as int)[i as int] != prefix@[i as int]);
            return None;
        }
        assert(name@.take(i + 1) =~= name@.take(i as int).push(name@[i as int]));
        assert(prefix@.take(i + 1) =~= prefix@.take(i as int).push(prefix@[i as int]));
        i += 1;
    }
    assert(prefix@.take(n as int) =~= prefix@);
    read_number(name, n)
}

/// The number that `name` carries behind `prefix`, if it is a name under
/// that prefix at all.
pub fn link_index(prefix: &str, name: &str) -> (r: Option<u64>)
    ensures
        match r {
            Some(v) => name_index(prefix@, name@) == Some(v as nat),
            None => name_index(prefix@, name@) is None,
        },
{
    let p = chars_of(prefix);
    let n = chars_of(name);
    index_of_chars(&p, &n)
}

fn push_decimal(out: &mut Vec<char>, n: u64)
    ensures
        final(out)@ == old(out)@ + decimal(n as nat),
    decreases n,
{
    if n >= 10 {
        push_decimal(out, n / 10);
    }
    out.push(digit_to_char((n % 10) as u8));
    assert(final(out)@ =~= old(out)@ + decimal(n as nat));
}

/// The name with number `n` under `prefix`.
pub fn make_link_name(prefix: &str, n: u64) -> (name: String)
    ensures
        name@ == link_name(prefix@, n as nat),
{
    let mut chars = chars_of(prefix);
    push_decimal(&mut chars, n);
    string_of(&chars)
}

/// Tells whether `name` is a link name: letters, at least one and at most
/// fourteen, that do not make a reserved prefix, and then a number.
pub fn link_name_valid(name: &str) -> (valid: bool)
    ensures
        valid == is_link_name(name@),
{
    let chars = chars_of(name);
    let mut prefix: Vec<char> = Vec::new();
    let mut k: usize = 0;
    while k < chars.len() && letter(chars[k])
        invariant
            k <= chars.len(),
            prefix@ == chars@.take(k as int),
            forall|j: int| 0 <= j < k ==> is_letter(#[trigger] chars@[j]),
        decreases chars.len() - k,
    {
        prefix.push(chars[k]);
        assert(chars@.take(k + 1) =~= chars@.take(k as int).push(chars@[k as int]));
        k += 1;
    }
    proof {
        // Only the end of the leading letters can part prefix and number.
        assert forall|m: int| splits_at(chars@, m) implies m == k by {
            let p = chars@.take(m);
            let d = chars@.skip(m);
            if m < k {
                assert(is_digit(d[0]));
            }
            if m > k {
                assert(is_letter(p[k as int]));
            }
        }
    }
    if k == 0 || k > PREFIX_MAX_LEN || k >= chars.len() {
        return false;
    }
    if reserved_chars(&prefix) {
        return false;
    }
    let valid = index_of_chars(&prefix, &chars).is_some();
    assert(valid == splits_at(chars@, k as int));
    valid
}

} // verus!
