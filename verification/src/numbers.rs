//! Numbers out of their digits.

use vstd::prelude::*;

verus! {

/// The value of a digit, in either case, up to `f`.
pub open spec fn hex_digit_value(b: u8) -> Option<int> {
    if 0x30 <= b <= 0x39 {
        Some(b - 0x30)
    } else if 0x61 <= b <= 0x66 {
        Some(b - 0x61 + 10)
    } else if 0x41 <= b <= 0x46 {
        Some(b - 0x41 + 10)
    } else {
        None
    }
}

/// The value of a digit of the base `radix`.
pub open spec fn digit_value(b: u8, radix: int) -> Option<int> {
    match hex_digit_value(b) {
        Some(d) => if d < radix {
            Some(d)
        } else {
            None
        },
        None => None,
    }
}

/// Every byte is a digit of the base `radix`.
pub open spec fn all_digits(s: Seq<u8>, radix: int) -> bool {
    forall|i: int| 0 <= i < s.len() ==> digit_value(#[trigger] s[i], radix) is Some
}

/// The number that digits of the base `radix` stand for; a byte that is no
/// digit counts as zero.
pub open spec fn number(s: Seq<u8>, radix: int) -> int
    decreases s.len(),
{
    if s.len() == 0 {
        0
    } else {
        number(s.drop_last(), radix) * radix + match digit_value(s.last(), radix) {
            Some(d) => d,
            None => 0,
        }
    }
}

/// The digits of a number: the text without a plus sign in front.
pub open spec fn unsigned(s: Seq<u8>) -> Seq<u8> {
    if s.len() > 0 && s[0] == 0x2b {
        s.drop_first()
    } else {
        s
    }
}

/// The number that a text stands for in the base `radix`: digits, at least
/// one, after an optional plus sign, with a value that fits 64 bits.
pub open spec fn parse_u64(s: Seq<u8>, radix: int) -> Option<int> {
    let d = unsigned(s);
    if d.len() == 0 || !all_digits(d, radix) || number(d, radix) > u64::MAX {
        None
    } else {
        Some(number(d, radix))
    }
}

/// A number in digits is not negative.
pub proof fn lemma_number_nonnegative(s: Seq<u8>, radix: int)
    requires
        radix >= 1,
    ensures
        0 <= number(s, radix),
    decreases s.len(),
{
    if s.len() > 0 {
        lemma_number_nonnegative(s.drop_last(), radix);
        assert(number(s.drop_last(), radix) * radix >= 0) by (nonlinear_arith)
            requires
                number(s.drop_last(), radix) >= 0,
                radix >= 1,
        ;
    }
}

/// More digits make no smaller number.
pub proof fn lemma_number_grows(s: Seq<u8>, k: int, radix: int)
    requires
        radix >= 1,
        0 <= k <= s.len(),
    ensures
        0 <= number(s.subrange(0, k), radix) <= number(s, radix),
    decreases s.len(),
{
    lemma_number_nonnegative(s.subrange(0, k), radix);
    if k == s.len() {
        assert(s.subrange(0, k) =~= s);
    } else {
        lemma_number_grows(s.drop_last(), k, radix);
        lemma_number_nonnegative(s.drop_last(), radix);
        assert(s.drop_last().subrange(0, k) =~= s.subrange(0, k));
        assert(number(s.drop_last(), radix) * radix >= number(s.drop_last(), radix))
            by (nonlinear_arith)
            requires
                number(s.drop_last(), radix) >= 0,
                radix >= 1,
        ;
    }
}

/// What a reader of numbers returned, as a mathematical integer.
pub open spec fn number_of(r: Option<u64>) -> Option<int> {
    match r {
        Some(v) => Some(v as int),
        None => None,
    }
}

/// Reads the value of one digit, up to `f`.
pub fn read_digit(b: u8) -> (r: Option<u64>)
    ensures
        number_of(r) == hex_digit_value(b),
{
    if 0x30 <= b && b <= 0x39 {
        Some((b - 0x30) as u64)
    } else if 0x61 <= b && b <= 0x66 {
        Some((b - 0x61 + 10) as u64)
    } else if 0x41 <= b && b <= 0x46 {
        Some((b - 0x41 + 10) as u64)
    } else {
        None
    }
}

/// Reads a number of up to 64 bits in the base `radix`.
pub fn read_u64(text: &[u8], radix: u64) -> (r: Option<u64>)
    requires
        2 <= radix <= 16,
    ensures
        number_of(r) == parse_u64(text@, radix as int),
{
    let n = text.len();
    let start: usize = if n > 0 && text[0] == 0x2b {
        1
    } else {
        0
    };
    let ghost d = unsigned(text@);
    assert(d =~= text@.subrange(start as int, n as int));
    if start == n {
        return None;
    }
    let mut acc: u64 = 0;
    let mut i: usize = start;
    while i < n
        invariant
            2 <= radix <= 16,
            start <= i <= n,
            n == text@.len(),
            d == text@.subrange(start as int, n as int),
            d == unsigned(text@),
            all_digits(d.subrange(0, i - start), radix as int),
            acc as int == number(d.subrange(0, i - start), radix as int),
        decreases n - i,
    {
        let b = text[i];
        assert(d[i - start] == b);
        let digit: u64 = match read_digit(b) {
            Some(v) => v,
            None => {
                assert(digit_value(d[i - start], radix as int) is None);
                return None;
            },
        };
        if digit >= radix {
            assert(digit_value(d[i - start], radix as int) is None);
            return None;
        }
        let ghost next = d.subrange(0, i - start + 1);
        proof {
            assert(next.drop_last() =~= d.subrange(0, i - start));
            assert(next.last() == b);
            assert(number(next, radix as int) == acc * radix + digit);
            lemma_number_grows(d, i - start + 1, radix as int);
        }
        let scaled = match acc.checked_mul(radix) {
            Some(m) => m,
            None => {
                return None;
            },
        };
        acc = match scaled.checked_add(digit) {
            Some(v) => v,
            None => {
                return None;
            },
        };
        proof {
            assert forall|j: int| 0 <= j < next.len() implies digit_value(
                #[trigger] next[j],
                radix as int,
            ) is Some by {
                if j < i - start {
                    assert(d.subrange(0, i - start)[j] == next[j]);
                }
            }
        }
        i += 1;
    }
    assert(d.subrange(0, n - start) =~= d);
    Some(acc)
}

/// Reads a hexadecimal number of up to 64 bits.
pub fn read_hex(text: &[u8]) -> (r: Option<u64>)
    ensures
        number_of(r) == parse_u64(text@, 16),
{
    read_u64(text, 16)
}

/// Reads a decimal number of up to 64 bits.
pub fn read_decimal(text: &[u8]) -> (r: Option<u64>)
    ensures
        number_of(r) == parse_u64(text@, 10),
{
    read_u64(text, 10)
}

} // verus!
