//! Decimal and hexadecimal numerals: reading integers as `str::parse`
//! does, and writing them as `Display` and `LowerHex` do.
use vstd::prelude::*;
use crate::text::{chars_of, string_of};

verus! {

pub open spec fn is_digit(c: char) -> bool {
    '0' <= c && c <= '9'
}

pub open spec fn all_digits(s: Seq<char>) -> bool {
    forall|i: int| 0 <= i < s.len() ==> is_digit(#[trigger] s[i])
}

/// The value of one decimal digit character.
pub open spec fn digit_value(c: char) -> int {
    c as int - '0' as int
}

/// The value of a run of decimal digits, most significant first.
pub open spec fn digits_value(s: Seq<char>) -> int
    decreases s.len(),
{
    if s.len() == 0 {
        0
    } else {
        digits_value(s.drop_last()) * 10 + digit_value(s.last())
    }
}

/// The integer a decimal numeral denotes: an optional `+` or `-`, then at
/// least one ASCII digit, nothing else (the grammar of `str::parse` for
/// integers).
pub open spec fn numeral_value(s: Seq<char>) -> Option<int> {
    if s.len() > 0 && (s[0] == '+' || s[0] == '-') {
        let d = s.drop_first();
        if d.len() > 0 && all_digits(d) {
            Some(if s[0] == '-' { -digits_value(d) } else { digits_value(d) })
        } else {
            None
        }
    } else if s.len() > 0 && all_digits(s) {
        Some(digits_value(s))
    } else {
        None
    }
}

/// `str::parse::<i32>`: the numeral's value when it is one and fits.
pub open spec fn parsed_i32(s: Seq<char>) -> Option<i32> {
    match numeral_value(s) {
        Some(v) => if i32::MIN <= v && v <= i32::MAX { Some(v as i32) } else { None },
        None => None,
    }
}

/// `str::parse::<i64>`: the numeral's value when it is one and fits.
pub open spec fn parsed_i64(s: Seq<char>) -> Option<i64> {
    match numeral_value(s) {
        Some(v) => if i64::MIN <= v && v <= i64::MAX { Some(v as i64) } else { None },
        None => None,
    }
}

proof fn lemma_digits_nonneg(s: Seq<char>)
    requires
        all_digits(s),
    ensures
        digits_value(s) >= 0,
    decreases s.len(),
{
    if s.len() > 0 {
        lemma_digits_nonneg(s.drop_last());
    }
}

/// A run of ASCII digits that fits in an `i32` reads as its value.
pub proof fn lemma_numeral_digits(s: Seq<char>)
    ensures
        all_digits(s) && s.len() > 0 && digits_value(s) <= i32::MAX ==> parsed_i32(s) == Some(
            digits_value(s) as i32,
        ),
{
    if all_digits(s) && s.len() > 0 {
        lemma_digits_nonneg(s);
        assert(is_digit(s[0]));
    }
}

fn digit_of(c: char) -> (r: u128)
    requires
        is_digit(c),
    ensures
        r == digit_value(c),
{
    if c == '0' { 0 } else if c == '1' { 1 } else if c == '2' { 2 } else if c == '3' { 3 }
    else if c == '4' { 4 } else if c == '5' { 5 } else if c == '6' { 6 } else if c == '7' { 7 }
    else if c == '8' { 8 } else { 9 }
}

fn is_digit_char(c: char) -> (r: bool)
    ensures
        r == is_digit(c),
{
    '0' <= c && c <= '9'
}

/// The value of `cs[start..]` as a run of digits, capped at `cap`, or `None`
/// when it holds a non-digit.
fn capped_digits(cs: &Vec<char>, start: usize, cap: u128) -> (r: Option<u128>)
    requires
        start <= cs.len(),
        cap <= 0x1_0000_0000_0000_0000u128,
    ensures
        r is Some <==> all_digits(cs@.skip(start as int)),
        r matches Some(v) ==> v == (if digits_value(cs@.skip(start as int)) < cap {
            digits_value(cs@.skip(start as int))
        } else {
            cap as int
        }),
{
    let mut acc: u128 = 0;
    let mut i: usize = start;
    while i < cs.len()
        invariant
            start <= i <= cs.len(),
            cap <= 0x1_0000_0000_0000_0000u128,
            all_digits(cs@.subrange(start as int, i as int)),
            acc == (if digits_value(cs@.subrange(start as int, i as int)) < cap {
                digits_value(cs@.subrange(start as int, i as int))
            } else {
                cap as int
            }),
        decreases cs.len() - i,
    {
        let c = cs[i];
        let ghost pre = cs@.subrange(start as int, i as int);
        let ghost post = cs@.subrange(start as int, i as int + 1);
        assert(post.drop_last() == pre);
        if !is_digit_char(c) {
            assert(cs@.skip(start as int)[i - start] == c);
            return None;
        }
        proof {
            lemma_digits_nonneg(pre);
        }
        let d = digit_of(c);
        let next = acc * 10 + d;
        acc = if next < cap { next } else { cap };
        assert(all_digits(post)) by {
            assert forall|j: int| 0 <= j < post.len() implies is_digit(#[trigger] post[j]) by {
                if j < pre.len() {
                    assert(post[j] == pre[j]);
                }
            }
        }
        i = i + 1;
    }
    assert(cs@.subrange(start as int, cs.len() as int) == cs@.skip(start as int));
    Some(acc)
}

/// Reads a signed numeral whose magnitude may be at most `max_pos` when
/// positive and `max_pos + 1` when negative.
fn parse_signed(s: &str, max_pos: u128) -> (r: Option<(bool, u128)>)
    requires
        max_pos < 0x8000_0000_0000_0000u128,
    ensures
        r is Some <==> (numeral_value(s@) is Some && {
            let v = numeral_value(s@)->0;
            -(max_pos as int) - 1 <= v && v <= max_pos
        }),
        r matches Some((neg, m)) ==> numeral_value(s@) == Some(if neg { -(m as int) } else { m as int }),
{
    let cs = chars_of(s);
    if cs.len() == 0 {
        return None;
    }
    let signed = cs[0] == '+' || cs[0] == '-';
    let neg = cs[0] == '-';
    let start: usize = if signed { 1 } else { 0 };
    if start == cs.len() {
        return None;
    }
    assert(cs@.skip(1) == cs@.drop_first());
    assert(cs@.skip(0) == cs@);
    let cap: u128 = max_pos + 2;
    match capped_digits(&cs, start, cap) {
        None => None,
        Some(m) => {
            if neg && m <= max_pos + 1 {
                Some((true, m))
            } else if !neg && m <= max_pos {
                Some((false, m))
            } else {
                None
            }
        },
    }
}

/// `str::parse::<i32>().ok()`.
pub fn parse_i32(s: &str) -> (r: Option<i32>)
    ensures
        r == parsed_i32(s@),
{
    match parse_signed(s, 0x7fff_ffffu128) {
        None => None,
        Some((neg, m)) => {
            if neg {
                if m == 0x8000_0000u128 {
                    Some(i32::MIN)
                } else {
                    let v = m as i32;
                    Some(-v)
                }
            } else {
                Some(m as i32)
            }
        },
    }
}

/// `str::parse::<i64>().ok()`.
pub fn parse_i64(s: &str) -> (r: Option<i64>)
    ensures
        r == parsed_i64(s@),
{
    match parse_signed(s, 0x7fff_ffff_ffff_ffffu128) {
        None => None,
        Some((neg, m)) => {
            if neg {
                if m == 0x8000_0000_0000_0000u128 {
                    Some(i64::MIN)
                } else {
                    let v = m as i64;
                    Some(-v)
                }
            } else {
                Some(m as i64)
            }
        },
    }
}

/// The character of a digit value below 16, lowercase for 10 to 15.
pub open spec fn hex_char(d: int) -> char {
    if d == 0 { '0' } else if d == 1 { '1' } else if d == 2 { '2' } else if d == 3 { '3' }
    else if d == 4 { '4' } else if d == 5 { '5' } else if d == 6 { '6' } else if d == 7 { '7' }
    else if d == 8 { '8' } else if d == 9 { '9' } else if d == 10 { 'a' } else if d == 11 { 'b' }
    else if d == 12 { 'c' } else if d == 13 { 'd' } else if d == 14 { 'e' } else { 'f' }
}

fn hex_char_of(d: u8) -> (r: char)
    requires
        d < 16,
    ensures
        r == hex_char(d as int),
{
    if d == 0 { '0' } else if d == 1 { '1' } else if d == 2 { '2' } else if d == 3 { '3' }
    else if d == 4 { '4' } else if d == 5 { '5' } else if d == 6 { '6' } else if d == 7 { '7' }
    else if d == 8 { '8' } else if d == 9 { '9' } else if d == 10 { 'a' } else if d == 11 { 'b' }
    else if d == 12 { 'c' } else if d == 13 { 'd' } else if d == 14 { 'e' } else { 'f' }
}

/// The decimal numeral of `n`, without leading zeros (`Display` for integers).
pub open spec fn decimal(n: nat) -> Seq<char>
    decreases n,
{
    if n < 10 {
        seq![hex_char(n as int)]
    } else {
        decimal(n / 10).push(hex_char((n % 10) as int))
    }
}

fn decimal_chars(n: usize) -> (r: Vec<char>)
    ensures
        r@ == decimal(n as nat),
    decreases n,
{
    if n < 10 {
        let mut v: Vec<char> = Vec::new();
        v.push(hex_char_of(n as u8));
        v
    } else {
        let mut v = decimal_chars(n / 10);
        v.push(hex_char_of((n % 10) as u8));
        v
    }
}

/// `n.to_string()`.
pub fn usize_to_string(n: usize) -> (r: String)
    ensures
        r@ == decimal(n as nat),
{
    let v = decimal_chars(n);
    string_of(&v)
}

/// Each byte as two lowercase hexadecimal digits (`LowerHex` of a byte array).
pub open spec fn hex_of(b: Seq<u8>) -> Seq<char>
    decreases b.len(),
{
    if b.len() == 0 {
        Seq::empty()
    } else {
        hex_of(b.drop_last()).push(hex_char((b.last() / 16) as int)).push(
            hex_char((b.last() % 16) as int),
        )
    }
}

/// The hexadecimal text has two digits per byte.
pub proof fn lemma_hex_len(b: Seq<u8>)
    ensures
        hex_of(b).len() == 2 * b.len(),
    decreases b.len(),
{
    if b.len() > 0 {
        lemma_hex_len(b.drop_last());
    }
}

/// The lowercase hexadecimal text of `b`.
pub fn hex_lower(b: &Vec<u8>) -> (r: String)
    ensures
        r@ == hex_of(b@),
{
    let mut out: Vec<char> = Vec::new();
    let mut i: usize = 0;
    while i < b.len()
        invariant
            i <= b.len(),
            out@ == hex_of(b@.take(i as int)),
        decreases b.len() - i,
    {
        assert(b@.take(i as int + 1).drop_last() == b@.take(i as int));
        let x = b[i];
        out.push(hex_char_of(x / 16));
        out.push(hex_char_of(x % 16));
        i = i + 1;
    }
    assert(b@.take(b.len() as int) == b@);
    string_of(&out)
}

} // verus!
