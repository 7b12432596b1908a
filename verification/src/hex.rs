//! Hexadecimal digits, and the numbers and bytes that runs of them write.

use vstd::prelude::*;

verus! {

/// The value of a hexadecimal digit of either case; `None` for every other
/// character.
pub open spec fn hex_value(c: char) -> Option<u8> {
    if '0' <= c <= '9' {
        Some((c as u8 - '0' as u8) as u8)
    } else if 'a' <= c <= 'f' {
        Some((c as u8 - 'a' as u8 + 10) as u8)
    } else if 'A' <= c <= 'F' {
        Some((c as u8 - 'A' as u8 + 10) as u8)
    } else {
        None
    }
}

/// The digit that writes a value below sixteen, in the requested case.
pub open spec fn hex_digit(n: u8, upper: bool) -> char {
    if n < 10 {
        ('0' as u8 + n) as u8 as char
    } else if upper {
        ('A' as u8 + n - 10) as u8 as char
    } else {
        ('a' as u8 + n - 10) as u8 as char
    }
}

/// Whether every character of `s` is a hexadecimal digit.
pub open spec fn all_hex(s: Seq<char>) -> bool {
    forall|i: int| 0 <= i < s.len() ==> hex_value(#[trigger] s[i]) is Some
}

/// Reads one hexadecimal digit.
pub fn digit_value(c: char) -> (r: Option<u8>)
    ensures
        r == hex_value(c),
{
    if '0' <= c && c <= '9' {
        Some(c as u8 - '0' as u8)
    } else if 'a' <= c && c <= 'f' {
        Some(c as u8 - 'a' as u8 + 10)
    } else if 'A' <= c && c <= 'F' {
        Some(c as u8 - 'A' as u8 + 10)
    } else {
        None
    }
}

/// Writes one hexadecimal digit, as a string of that one character.
pub(crate) fn digit_text(n: u8, upper: bool) -> (r: &'static str)
    requires
        n < 16,
    ensures
        r@ == seq![hex_digit(n, upper)],
{
    let digits = if upper {
        "0123456789ABCDEF"
    } else {
        "0123456789abcdef"
    };
    proof {
        reveal_strlit("0123456789ABCDEF");
        reveal_strlit("0123456789abcdef");
    }
    let r = digits.substring_ascii(n as usize, n as usize + 1);
    r
}

/// The value of `c` as a digit, with zero for a character that is none.
pub open spec fn digit_or_zero(c: char) -> nat {
    match hex_value(c) {
        Some(d) => d as nat,
        None => 0,
    }
}

/// The number that a run of hexadecimal digits writes, most significant
/// digit first.
pub open spec fn hex_number(s: Seq<char>) -> nat
    decreases s.len(),
{
    if s.len() == 0 {
        0
    } else {
        16 * hex_number(s.drop_last()) + digit_or_zero(s.last())
    }
}

/// The bytes that a run of hexadecimal digits writes: two digits to a byte,
/// the high nibble first, in the order of the text.
pub open spec fn hex_bytes(s: Seq<char>) -> Seq<u8> {
    Seq::new(
        s.len() / 2,
        |i: int| (16 * digit_or_zero(s[2 * i]) + digit_or_zero(s[2 * i + 1])) as u8,
    )
}

/// The `n` low-order bytes of `v`, most significant byte first.
pub open spec fn be_bytes(v: nat, n: nat) -> Seq<u8>
    decreases n,
{
    if n == 0 {
        Seq::empty()
    } else {
        be_bytes(v / 256, (n - 1) as nat).push((v % 256) as u8)
    }
}

/// Sixteen to the power `n`.
spec fn pow16(n: nat) -> nat
    decreases n,
{
    if n == 0 {
        1
    } else {
        16 * pow16((n - 1) as nat)
    }
}

proof fn lemma_hex_number_below_pow16(s: Seq<char>)
    ensures
        hex_number(s) < pow16(s.len()),
    decreases s.len(),
{
    if s.len() > 0 {
        lemma_hex_number_below_pow16(s.drop_last());
    }
}

proof fn lemma_pow16_fits(n: nat)
    requires
        n <= 16,
    ensures
        pow16(n) <= 0x1_0000_0000_0000_0000,
    decreases 16 - n,
{
    if n == 16 {
        reveal_with_fuel(pow16, 17);
    } else {
        lemma_pow16_fits(n + 1);
    }
}

/// Sixteen digits at most write a number that fits in 64 bits.
pub proof fn lemma_sixteen_digits_fit(s: Seq<char>)
    requires
        s.len() <= 16,
    ensures
        hex_number(s) <= u64::MAX,
{
    lemma_hex_number_below_pow16(s);
    lemma_pow16_fits(s.len());
}

/// Taking a number written in hexadecimal apart into big-endian bytes gives
/// the bytes that the digits write pair by pair: no reordering takes place.
pub proof fn lemma_be_bytes_of_hex_number(s: Seq<char>)
    requires
        s.len() % 2 == 0,
    ensures
        be_bytes(hex_number(s), s.len() / 2) == hex_bytes(s),
    decreases s.len(),
{
    if s.len() > 0 {
        let t = s.drop_last().drop_last();
        lemma_be_bytes_of_hex_number(t);
        assert(hex_number(s.drop_last()) == 16 * hex_number(t) + digit_or_zero(s[s.len() - 2]));
    }
}

/// Reads a run of one to sixteen hexadecimal digits as a number.
pub fn parse_hex_u64(digits: &[char]) -> (r: Option<u64>)
    ensures
        match r {
            Some(v) => 0 < digits@.len() <= 16 && all_hex(digits@) && v == hex_number(digits@),
            None => !(0 < digits@.len() <= 16 && all_hex(digits@)),
        },
{
    let n = digits.len();
    if n == 0 || n > 16 {
        return None;
    }
    let mut acc: u64 = 0;
    let mut i: usize = 0;
    while i < n
        invariant
            n == digits@.len(),
            i <= n <= 16,
            all_hex(digits@.take(i as int)),
            acc == hex_number(digits@.take(i as int)),
        decreases n - i,
    {
        let ghost after = digits@.take(i + 1);
        assert(after.drop_last() =~= digits@.take(i as int));
        match digit_value(digits[i]) {
            None => {
                return None;
            },
            Some(d) => {
                proof {
                    lemma_sixteen_digits_fit(after);
                }
                acc = acc * 16 + d as u64;
            },
        }
        i += 1;
    }
    assert(digits@.take(n as int) =~= digits@);
    Some(acc)
}

/// The eight bytes of `v`, most significant byte first.
pub fn u64_be_bytes(v: u64) -> (r: [u8; 8])
    ensures
        r@ == be_bytes(v as nat, 8),
{
    let mut r = [0u8; 8];
    let mut rest: u64 = v;
    let mut i: usize = 8;
    while i > 0
        invariant
            i <= 8,
            be_bytes(v as nat, 8) == be_bytes(rest as nat, i as nat) + r@.subrange(i as int, 8),
        decreases i,
    {
        i -= 1;
        r[i] = (rest % 256) as u8;
        rest = rest / 256;
    }
    r
}

} // verus!
