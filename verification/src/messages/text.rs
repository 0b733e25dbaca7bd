//! Text and integers out of bytes.

use byteorder::{ByteOrder, LittleEndian};
use vstd::prelude::*;
use vstd::slice::slice_to_vec;
use vstd::utf8::{decode_utf8, valid_utf8};
use crate::messages::grammar;
use crate::messages::parts::Part;

verus! {

/// Calls `String::from_utf8` on a copy of the bytes. The result is there
/// exactly when the bytes are well-formed UTF-8, and then it is the text that
/// they encode.
#[verifier::external_body]
pub(crate) fn decode_text(bytes: &[u8]) -> (text: Option<String>)
    ensures
        text is Some <==> valid_utf8(bytes@),
        text matches Some(s) ==> s@ == decode_utf8(bytes@),
{
    String::from_utf8(bytes.to_vec()).ok()
}

/// Calls `byteorder::LittleEndian::read_u32`, which reads the first four
/// bytes of the buffer as an integer with the least significant byte first,
/// and panics on a shorter buffer.
#[verifier::external_body]
pub(crate) fn read_u32_le(buf: &[u8]) -> (v: u32)
    requires
        buf@.len() >= 4,
    ensures
        v as int == grammar::le_value(buf@.subrange(0, 4)),
{
    LittleEndian::read_u32(buf)
}

/// A run of plain bytes as a fragment: text where it is UTF-8, else bytes.
pub fn text_or_bytes(bytes: &[u8]) -> (part: Part)
    ensures
        part@ == grammar::text_or_bytes(bytes@),
{
    match decode_text(bytes) {
        Some(s) => Part::PlainText(s),
        None => Part::Bytes(slice_to_vec(bytes)),
    }
}

/// 256 to the power `n`.
pub open spec fn pow256(n: nat) -> int
    decreases n,
{
    if n == 0 {
        1
    } else {
        256 * pow256((n - 1) as nat)
    }
}

/// Eight bytes fill a `u64` exactly.
pub proof fn lemma_pow256_8()
    ensures
        pow256(8) == 0x1_0000_0000_0000_0000,
{
    reveal_with_fuel(pow256, 9);
}

/// The powers of 256 grow.
pub proof fn lemma_pow256_grows(a: nat, b: nat)
    requires
        a <= b,
    ensures
        0 < pow256(a) <= pow256(b),
    decreases b,
{
    if b == 0 {
    } else if a == b {
        lemma_pow256_grows((a - 1) as nat, (a - 1) as nat);
    } else {
        lemma_pow256_grows(a, (b - 1) as nat);
    }
}

/// A big-endian value of `n` bytes lies below 256 to the `n`.
pub proof fn lemma_be_value_bound(b: Seq<u8>)
    ensures
        0 <= grammar::be_value(b) < pow256(b.len()),
    decreases b.len(),
{
    if b.len() > 0 {
        lemma_be_value_bound(b.drop_last());
    }
}

/// A little-endian value of `n` bytes lies below 256 to the `n`.
pub proof fn lemma_le_value_bound(b: Seq<u8>)
    ensures
        0 <= grammar::le_value(b) < pow256(b.len()),
    decreases b.len(),
{
    if b.len() > 0 {
        lemma_le_value_bound(b.drop_first());
    }
}

/// What a decoder of variable-length integers returned, as a mathematical
/// integer.
pub open spec fn value_of(r: Option<u64>) -> Option<int> {
    match r {
        Some(v) => Some(v as int),
        None => None,
    }
}

/// Reads a big-endian integer of one byte, or of an even number of bytes up
/// to eight.
pub fn read_var_be(bytes: &[u8]) -> (r: Option<u64>)
    ensures
        value_of(r) == grammar::var_be(bytes@),
{
    let n = bytes.len();
    if n == 0 || n > 8 || (n != 1 && n % 2 == 1) {
        return None;
    }
    let mut res: u64 = 0;
    let mut i: usize = 0;
    while i < n
        invariant
            i <= n <= 8,
            n == bytes@.len(),
            res as int == grammar::be_value(bytes@.subrange(0, i as int)),
        decreases n - i,
    {
        proof {
            let next = bytes@.subrange(0, i + 1);
            assert(next.drop_last() =~= bytes@.subrange(0, i as int));
            lemma_be_value_bound(bytes@.subrange(0, i as int));
            lemma_be_value_bound(next);
            lemma_pow256_grows((i + 1) as nat, 8);
            lemma_pow256_8();
        }
        res = res * 256 + bytes[i] as u64;
        i += 1;
    }
    assert(bytes@.subrange(0, n as int) =~= bytes@);
    Some(res)
}

/// Reads a little-endian integer of one byte, or of an even number of bytes
/// up to eight.
pub fn read_var_le(bytes: &[u8]) -> (r: Option<u64>)
    ensures
        value_of(r) == grammar::var_le(bytes@),
{
    let n = bytes.len();
    if n == 0 || n > 8 || (n != 1 && n % 2 == 1) {
        return None;
    }
    let mut res: u64 = 0;
    let mut i: usize = n;
    while i > 0
        invariant
            i <= n <= 8,
            n == bytes@.len(),
            res as int == grammar::le_value(bytes@.subrange(i as int, n as int)),
        decreases i,
    {
        proof {
            let next = bytes@.subrange(i - 1, n as int);
            assert(next.drop_first() =~= bytes@.subrange(i as int, n as int));
            lemma_le_value_bound(bytes@.subrange(i as int, n as int));
            lemma_le_value_bound(next);
            lemma_pow256_grows((n - i + 1) as nat, 8);
            lemma_pow256_8();
        }
        i -= 1;
        res = res * 256 + bytes[i] as u64;
    }
    assert(bytes@.subrange(0, n as int) =~= bytes@);
    Some(res)
}

} // verus!
