//! Hexadecimal and decimal numbers as text.

use vstd::prelude::*;

verus! {

/// The value of a hexadecimal digit, of either case.
pub open spec fn hex_digit(c: char) -> Option<u8> {
    if '0' <= c <= '9' {
        Some((c as u32 - '0' as u32) as u8)
    } else if 'a' <= c <= 'f' {
        Some((c as u32 - 'a' as u32 + 10) as u8)
    } else if 'A' <= c <= 'F' {
        Some((c as u32 - 'A' as u32 + 10) as u8)
    } else {
        None
    }
}

/// The lower-case hexadecimal digit for a value below 16.
pub open spec fn hex_char(v: int) -> char {
    if v < 10 {
        ('0' as u32 + v) as char
    } else {
        ('a' as u32 + v - 10) as char
    }
}

/// Whether every character of `s` is a hexadecimal digit.
pub open spec fn all_hex(s: Seq<char>) -> bool {
    forall|i: int| 0 <= i < s.len() ==> hex_digit(#[trigger] s[i]) is Some
}

/// The number that the hexadecimal digits `s` write, most significant first;
/// 0 for no digits. Meant for `s` with `all_hex(s)`.
pub open spec fn hex_value(s: Seq<char>) -> nat
    decreases s.len(),
{
    if s.len() == 0 {
        0
    } else {
        hex_value(s.drop_last()) * 16 + match hex_digit(s.last()) {
            Some(d) => d as nat,
            None => 0,
        }
    }
}

/// The 64-bit number that `s` writes in hexadecimal: `s` is one or more
/// hexadecimal digits, of either case, and the number fits.
pub open spec fn parse_hex_u64(s: Seq<char>) -> Option<u64> {
    if s.len() > 0 && all_hex(s) && hex_value(s) <= u64::MAX {
        Some(hex_value(s) as u64)
    } else {
        None
    }
}

/// The byte that the two characters write in hexadecimal.
pub open spec fn parse_hex_pair(hi: char, lo: char) -> Option<u8> {
    match (hex_digit(hi), hex_digit(lo)) {
        (Some(h), Some(l)) => Some((h * 16 + l) as u8),
        _ => None,
    }
}

/// `n` in lower-case hexadecimal without leading zeros.
pub open spec fn hex_lower(n: nat) -> Seq<char>
    decreases n,
{
    if n < 16 {
        seq![hex_char(n as int)]
    } else {
        hex_lower(n / 16).push(hex_char((n % 16) as int))
    }
}

/// `n` in decimal without leading zeros.
pub open spec fn decimal(n: nat) -> Seq<char>
    decreases n,
{
    if n < 10 {
        seq![('0' as u32 + n) as char]
    } else {
        decimal(n / 10).push(('0' as u32 + n % 10) as char)
    }
}

/// `n` in decimal, with a `-` in front where it is negative.
pub open spec fn signed_decimal(n: int) -> Seq<char> {
    if n < 0 {
        seq!['-'] + decimal((-n) as nat)
    } else {
        decimal(n as nat)
    }
}

/// Whether `c` is a decimal digit.
pub open spec fn is_decimal_digit(c: char) -> bool {
    '0' <= c <= '9'
}

/// The number that the decimal digits `s` write; 0 for no digits.
pub open spec fn decimal_value(s: Seq<char>) -> nat
    decreases s.len(),
{
    if s.len() == 0 {
        0
    } else {
        decimal_value(s.drop_last()) * 10 + (s.last() as u32 - '0' as u32) as nat
    }
}

/// The value of one hexadecimal digit.
pub fn hex_digit_of(c: char) -> (d: Option<u8>)
    ensures
        d == hex_digit(c),
        d matches Some(v) ==> v < 16,
{
    if '0' <= c && c <= '9' {
        Some((c as u32 - '0' as u32) as u8)
    } else if 'a' <= c && c <= 'f' {
        Some((c as u32 - 'a' as u32 + 10) as u8)
    } else if 'A' <= c && c <= 'F' {
        Some((c as u32 - 'A' as u32 + 10) as u8)
    } else {
        None
    }
}

/// The lower-case hexadecimal digit for `v`.
pub(crate) fn hex_char_of(v: u8) -> (c: char)
    requires
        v < 16,
    ensures
        c == hex_char(v as int),
        hex_digit(c) == Some(v),
{
    if v < 10 {
        (0x30u8 + v) as char
    } else {
        (0x61u8 + (v - 10)) as char
    }
}

/// Reads a 64-bit number written in hexadecimal.
pub fn parse_hex(s: &[char]) -> (n: Option<u64>)
    ensures
        n == parse_hex_u64(s@),
{
    if s.len() == 0 {
        return None;
    }
    let mut value: u64 = 0;
    let mut i: usize = 0;
    while i < s.len()
        invariant
            i <= s.len(),
            all_hex(s@.take(i as int)),
            value == hex_value(s@.take(i as int)),
        decreases s.len() - i,
    {
        let ghost head = s@.take(i as int + 1);
        proof {
            assert(head.drop_last() == s@.take(i as int));
            assert(head.last() == s@[i as int]);
        }
        match hex_digit_of(s[i]) {
            None => {
                proof {
                    assert(hex_digit(s@[i as int]) is None);
                }
                return None;
            },
            Some(d) => {
                proof {
                    assert forall|k: int| 0 <= k < head.len() implies hex_digit(
                        #[trigger] head[k],
                    ) is Some by {
                        if k < i {
                            assert(head[k] == s@.take(i as int)[k]);
                        }
                    }
                }
                if value > (u64::MAX - d as u64) / 16 {
                    proof {
                        lemma_hex_grows(s@, i as int + 1);
                    }
                    return None;
                }
                value = value * 16 + d as u64;
            },
        }
        i += 1;
    }
    proof {
        assert(s@.take(s.len() as int) == s@);
    }
    Some(value)
}

/// The value of a prefix of hexadecimal digits is at most that of the whole.
pub proof fn lemma_hex_grows(s: Seq<char>, k: int)
    requires
        0 <= k <= s.len(),
    ensures
        hex_value(s.take(k)) <= hex_value(s),
    decreases s.len() - k,
{
    if k < s.len() {
        lemma_hex_grows(s, k + 1);
        assert(s.take(k + 1).drop_last() == s.take(k));
        assert(hex_value(s.take(k)) * 16 >= hex_value(s.take(k))) by (nonlinear_arith);
    } else {
        assert(s.take(k) == s);
    }
}

/// Appends `n` in lower-case hexadecimal, without leading zeros.
pub fn push_hex(out: &mut String, n: u64)
    ensures
        final(out)@ == old(out)@ + hex_lower(n as nat),
    decreases n,
{
    if n >= 16 {
        push_hex(out, n / 16);
    }
    out.push(hex_char_of((n % 16) as u8));
}

/// Appends `n` in decimal, without leading zeros.
pub fn push_decimal(out: &mut String, n: u64)
    ensures
        final(out)@ == old(out)@ + decimal(n as nat),
    decreases n,
{
    if n >= 10 {
        push_decimal(out, n / 10);
    }
    out.push((0x30u8 + (n % 10) as u8) as char);
}

/// Appends `n` in decimal, with a `-` in front where it is negative.
pub fn push_signed_decimal(out: &mut String, n: i64)
    ensures
        final(out)@ == old(out)@ + signed_decimal(n as int),
{
    if n < 0 {
        out.push('-');
        let magnitude: u64 = if n == i64::MIN {
            0x8000_0000_0000_0000u64
        } else {
            (-n) as u64
        };
        push_decimal(out, magnitude);
    } else {
        push_decimal(out, n as u64);
    }
}

} // verus!
