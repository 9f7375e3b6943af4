//! Decimal and hexadecimal numerals: formatting integers (`Display`) and
//! parsing them (`str::parse`, `from_str_radix`).
use vstd::prelude::*;
use crate::text::push_char;

verus! {

/// The decimal digit character for `d < 10`.
pub open spec fn digit_char(d: nat) -> char {
    (('0' as u32) + d) as char
}

/// Decimal numeral of a natural number, without leading zeros.
pub open spec fn dec(n: nat) -> Seq<char>
    decreases n,
{
    if n < 10 {
        seq![digit_char(n)]
    } else {
        dec(n / 10).push(digit_char(n % 10))
    }
}

/// Decimal numeral of an integer (`-` before negative numbers).
pub open spec fn dec_int(i: int) -> Seq<char> {
    if i < 0 {
        seq!['-'] + dec((-i) as nat)
    } else {
        dec(i as nat)
    }
}

pub open spec fn is_digit(c: char) -> bool {
    '0' <= c && c <= '9'
}

pub open spec fn all_digits(s: Seq<char>) -> bool {
    forall|i: int| 0 <= i < s.len() ==> is_digit(#[trigger] s[i])
}

/// The value of a string of decimal digits.
pub open spec fn digits_value(s: Seq<char>) -> nat
    decreases s.len(),
{
    if s.len() == 0 {
        0
    } else {
        digits_value(s.drop_last()) * 10 + ((s.last() as u32) - ('0' as u32)) as nat
    }
}

/// `str::parse::<i64>`: an optional `+` or `-`, then at least one decimal
/// digit; `None` when the value does not fit.
pub open spec fn parse_i64(s: Seq<char>) -> Option<i64> {
    let neg = s.len() > 0 && s[0] == '-';
    let signed = s.len() > 0 && (s[0] == '-' || s[0] == '+');
    let ds = if signed { s.drop_first() } else { s };
    if ds.len() == 0 || !all_digits(ds) {
        None
    } else {
        let v: int = if neg { -(digits_value(ds) as int) } else { digits_value(ds) as int };
        if i64::MIN <= v && v <= i64::MAX {
            Some(v as i64)
        } else {
            None
        }
    }
}

proof fn lemma_digits_value_grows(s: Seq<char>, k: int)
    requires
        0 <= k <= s.len(),
        all_digits(s),
    ensures
        digits_value(s.take(k)) <= digits_value(s),
    decreases s.len() - k,
{
    if k < s.len() {
        lemma_digits_value_grows(s, k + 1);
        assert(s.take(k + 1).drop_last() =~= s.take(k));
    } else {
        assert(s.take(k) =~= s);
    }
}

proof fn lemma_digits_step(ds: Seq<char>, k: int)
    requires
        0 <= k < ds.len(),
    ensures
        digits_value(ds.take(k + 1)) == digits_value(ds.take(k)) * 10 + ((ds[k] as u32) - ('0' as u32)) as nat,
{
    assert(ds.take(k + 1).drop_last() =~= ds.take(k));
}

/// `str::parse::<i64>`.
pub fn parse_i64_exec(s: &Vec<char>) -> (r: Option<i64>)
    ensures
        r == parse_i64(s@),
{
    let n = s.len();
    let neg = n > 0 && s[0] == '-';
    let signed = n > 0 && (s[0] == '-' || s[0] == '+');
    let start: usize = if signed { 1 } else { 0 };
    let ghost ds = if signed { s@.drop_first() } else { s@ };
    assert(ds =~= s@.subrange(start as int, n as int));
    if start >= n {
        return None;
    }
    let mut val: i128 = 0;
    let mut i = start;
    while i < n
        invariant
            start <= i <= n,
            n == s.len(),
            neg == (s@.len() > 0 && s@[0] == '-'),
            signed == (s@.len() > 0 && (s@[0] == '-' || s@[0] == '+')),
            ds == (if signed { s@.drop_first() } else { s@ }),
            ds == s@.subrange(start as int, n as int),
            forall|k: int| 0 <= k < i - start ==> is_digit(#[trigger] ds[k]),
            val == digits_value(ds.take(i - start)),
            val <= 9223372036854775808,
        decreases n - i,
    {
        let c = s[i];
        if !('0' <= c && c <= '9') {
            assert(!is_digit(ds[i - start]));
            assert(!all_digits(ds));
            return None;
        }
        proof {
            lemma_digits_step(ds, i - start);
        }
        let d = (c as u32 - '0' as u32) as i128;
        val = val * 10 + d;
        i = i + 1;
        if val > 9223372036854775808 {
            proof {
                if all_digits(ds) {
                    lemma_digits_value_grows(ds, i - start);
                }
            }
            return None;
        }
    }
    assert(ds.take(n - start) =~= ds);
    if neg {
        Some((0 - val) as i64)
    } else if val <= 9223372036854775807 {
        Some(val as i64)
    } else {
        None
    }
}

proof fn lemma_dec_len(n: nat)
    ensures
        dec(n).len() >= 1,
    decreases n,
{
    if n >= 10 {
        lemma_dec_len(n / 10);
    }
}

/// The decimal numeral of `n`.
pub fn dec_u64(n: u64) -> (r: Vec<char>)
    ensures
        r@ == dec(n as nat),
    decreases n,
{
    if n < 10 {
        let mut r: Vec<char> = Vec::new();
        r.push(char_of_digit(n));
        assert(r@ =~= dec(n as nat));
        r
    } else {
        let mut r = dec_u64(n / 10);
        r.push(char_of_digit(n % 10));
        r
    }
}

fn char_of_digit(d: u64) -> (c: char)
    requires
        d < 10,
    ensures
        c == digit_char(d as nat),
{
    if d == 0 { '0' } else if d == 1 { '1' } else if d == 2 { '2' } else if d == 3 { '3' } else if d == 4 {
        '4'
    } else if d == 5 { '5' } else if d == 6 { '6' } else if d == 7 { '7' } else if d == 8 { '8' } else { '9' }
}

/// The decimal numeral of `i`.
pub fn dec_i64(i: i64) -> (r: Vec<char>)
    ensures
        r@ == dec_int(i as int),
{
    if i < 0 {
        let mag: u64 = if i == i64::MIN { 9223372036854775808u64 } else { (0 - i) as u64 };
        let digits = dec_u64(mag);
        let mut r: Vec<char> = Vec::new();
        r.push('-');
        crate::text::append_chars(&mut r, &digits);
        assert(r@ =~= dec_int(i as int));
        r
    } else {
        dec_u64(i as u64)
    }
}

/// Appends the decimal numeral of `n` to `s`.
pub fn push_u64(s: &mut String, n: u64)
    ensures
        final(s)@ == old(s)@ + dec(n as nat),
{
    let d = dec_u64(n);
    crate::text::append_str_chars(s, &d);
}

/// Appends the decimal numeral of `i` to `s`.
pub fn push_i64(s: &mut String, i: i64)
    ensures
        final(s)@ == old(s)@ + dec_int(i as int),
{
    let d = dec_i64(i);
    crate::text::append_str_chars(s, &d);
}

// ───────────────────────── hexadecimal ─────────────────────────

/// The value of a hexadecimal digit (either case).
pub open spec fn hex_value(c: char) -> Option<nat> {
    if '0' <= c && c <= '9' {
        Some(((c as u32) - ('0' as u32)) as nat)
    } else if 'a' <= c && c <= 'f' {
        Some(((c as u32) - ('a' as u32) + 10) as nat)
    } else if 'A' <= c && c <= 'F' {
        Some(((c as u32) - ('A' as u32) + 10) as nat)
    } else {
        None
    }
}

/// `u8::from_str_radix(s, 16)` for a two-character `s`: two hex digits,
/// or `+` and one hex digit.
pub open spec fn parse_hex_byte(a: char, b: char) -> Option<u8> {
    if a == '+' {
        match hex_value(b) {
            Some(v) => Some(v as u8),
            None => None,
        }
    } else {
        match (hex_value(a), hex_value(b)) {
            (Some(x), Some(y)) => Some((x * 16 + y) as u8),
            _ => None,
        }
    }
}

pub fn hex_value_exec(c: char) -> (r: Option<u8>)
    ensures
        match r {
            Some(v) => hex_value(c) == Some(v as nat),
            None => hex_value(c) is None,
        },
{
    if '0' <= c && c <= '9' {
        Some((c as u32 - '0' as u32) as u8)
    } else if 'a' <= c && c <= 'f' {
        Some((c as u32 - 'a' as u32 + 10) as u8)
    } else if 'A' <= c && c <= 'F' {
        Some((c as u32 - 'A' as u32 + 10) as u8)
    } else {
        None
    }
}

pub fn parse_hex_byte_exec(a: char, b: char) -> (r: Option<u8>)
    ensures
        r == parse_hex_byte(a, b),
{
    if a == '+' {
        match hex_value_exec(b) {
            Some(v) => Some(v),
            None => None,
        }
    } else {
        match (hex_value_exec(a), hex_value_exec(b)) {
            (Some(x), Some(y)) => Some(x * 16 + y),
            _ => None,
        }
    }
}

} // verus!
