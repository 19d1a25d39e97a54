//! LEB128 variable-length integer encoding: the mathematical form of the
//! encoding, trusted bindings to `mini_leb128` that produce it, and proofs
//! that a decoder recovers every encoded value.

use vstd::prelude::*;
use vstd::arithmetic::div_mod::lemma_fundamental_div_mod;

verus! {

/// The canonical unsigned LEB128 encoding of a non-negative integer:
/// 7 data bits per byte in little-endian group order, with the high bit of
/// a byte set exactly when more bytes follow.
pub open spec fn leb128_unsigned(n: int) -> Seq<u8>
    recommends
        n >= 0,
    decreases n,
{
    if n < 128 {
        seq![n as u8]
    } else {
        seq![(n % 128 + 128) as u8] + leb128_unsigned(n / 128)
    }
}

/// The canonical signed LEB128 encoding of an integer: two's-complement,
/// 7 data bits per byte, sign-extended from bit 6 of the final byte.
pub open spec fn leb128_signed(n: int) -> Seq<u8>
    decreases (if n < 0 { -n } else { n }),
{
    if -64 <= n < 64 {
        seq![(n % 128) as u8]
    } else {
        seq![(n % 128 + 128) as u8] + leb128_signed(n / 128)
    }
}

/// What an unsigned LEB128 decoder reads from the start of `s`: the decoded
/// value and the remaining bytes, or `None` if `s` ends inside an encoding.
pub open spec fn read_leb128_unsigned(s: Seq<u8>) -> Option<(int, Seq<u8>)>
    decreases s.len(),
{
    if s.len() == 0 {
        None
    } else if s[0] < 128 {
        Some((s[0] as int, s.drop_first()))
    } else {
        match read_leb128_unsigned(s.drop_first()) {
            Some(p) => Some((s[0] - 128 + 128 * p.0, p.1)),
            None => None,
        }
    }
}

/// What a signed LEB128 decoder reads from the start of `s`: the decoded
/// value (sign-extended from bit 6 of the final byte) and the remaining
/// bytes, or `None` if `s` ends inside an encoding.
pub open spec fn read_leb128_signed(s: Seq<u8>) -> Option<(int, Seq<u8>)>
    decreases s.len(),
{
    if s.len() == 0 {
        None
    } else if s[0] < 64 {
        Some((s[0] as int, s.drop_first()))
    } else if s[0] < 128 {
        Some((s[0] - 128, s.drop_first()))
    } else {
        match read_leb128_signed(s.drop_first()) {
            Some(p) => Some((s[0] - 128 + 128 * p.0, p.1)),
            None => None,
        }
    }
}

/// Decoding an unsigned encoding yields the encoded value and leaves
/// exactly the trailing bytes.
pub proof fn lemma_read_leb128_unsigned(n: int, rest: Seq<u8>)
    requires
        n >= 0,
    ensures
        read_leb128_unsigned(leb128_unsigned(n) + rest) == Some((n, rest)),
    decreases n,
{
    if n < 128 {
        let s = leb128_unsigned(n) + rest;
        assert(s[0] == n as u8);
        assert(s.drop_first() =~= rest);
    } else {
        lemma_read_leb128_unsigned(n / 128, rest);
        lemma_fundamental_div_mod(n, 128);
        let s = leb128_unsigned(n) + rest;
        assert(s[0] == (n % 128 + 128) as u8);
        assert(s.drop_first() =~= leb128_unsigned(n / 128) + rest);
    }
}

/// Decoding a signed encoding yields the encoded value and leaves exactly
/// the trailing bytes.
pub proof fn lemma_read_leb128_signed(n: int, rest: Seq<u8>)
    ensures
        read_leb128_signed(leb128_signed(n) + rest) == Some((n, rest)),
    decreases (if n < 0 { -n } else { n }),
{
    if -64 <= n < 64 {
        lemma_fundamental_div_mod(n, 128);
        let s = leb128_signed(n) + rest;
        assert(s[0] == (n % 128) as u8);
        assert(s.drop_first() =~= rest);
    } else {
        lemma_read_leb128_signed(n / 128, rest);
        lemma_fundamental_div_mod(n, 128);
        let s = leb128_signed(n) + rest;
        assert(s[0] == (n % 128 + 128) as u8);
        assert(s.drop_first() =~= leb128_signed(n / 128) + rest);
    }
}

/// For every unsigned 32-bit value, decoding its encoding yields the value
/// back, with no bytes left over.
pub proof fn lemma_leb128_u32_round_trip(v: u32)
    ensures
        read_leb128_unsigned(leb128_unsigned(v as int)) == Some((v as int, Seq::<u8>::empty())),
{
    lemma_read_leb128_unsigned(v as int, Seq::empty());
    assert(leb128_unsigned(v as int) + Seq::<u8>::empty() =~= leb128_unsigned(v as int));
}

/// For every signed 32-bit value, zero and negative values included,
/// decoding its encoding yields the value back.
pub proof fn lemma_leb128_i32_round_trip(v: i32)
    ensures
        read_leb128_signed(leb128_signed(v as int)) == Some((v as int, Seq::<u8>::empty())),
{
    lemma_read_leb128_signed(v as int, Seq::empty());
    assert(leb128_signed(v as int) + Seq::<u8>::empty() =~= leb128_signed(v as int));
}

/// For every signed 64-bit value, zero and negative values included,
/// decoding its encoding yields the value back.
pub proof fn lemma_leb128_i64_round_trip(v: i64)
    ensures
        read_leb128_signed(leb128_signed(v as int)) == Some((v as int, Seq::<u8>::empty())),
{
    lemma_read_leb128_signed(v as int, Seq::empty());
    assert(leb128_signed(v as int) + Seq::<u8>::empty() =~= leb128_signed(v as int));
}

/// Relies on `mini_leb128::write_u32`: appends the unsigned LEB128 encoding
/// of `v` to `out` (7 data bits per byte, continuation bit while more bytes
/// follow). Writing into a `Vec<u8>` cannot fail, so the byte-count result
/// is dropped.
#[verifier::external_body]
pub(crate) fn write_u32(out: &mut Vec<u8>, v: u32)
    ensures
        final(out)@ == old(out)@ + leb128_unsigned(v as int),
{
    let _ = mini_leb128::write_u32(&mut *out, v);
}

/// Relies on `mini_leb128::write_u64`: appends the unsigned LEB128 encoding
/// of `v` to `out`. Used for derived byte lengths, which are measured as
/// `usize`. Writing into a `Vec<u8>` cannot fail, so the byte-count result
/// is dropped.
#[verifier::external_body]
pub(crate) fn write_u64(out: &mut Vec<u8>, v: u64)
    ensures
        final(out)@ == old(out)@ + leb128_unsigned(v as int),
{
    let _ = mini_leb128::write_u64(&mut *out, v);
}

/// Relies on `mini_leb128::write_i32`: appends the signed LEB128 encoding
/// of `v` to `out` (two's-complement, sign bit folded into bit 6 of the
/// final byte). Writing into a `Vec<u8>` cannot fail, so the byte-count
/// result is dropped.
#[verifier::external_body]
pub(crate) fn write_i32(out: &mut Vec<u8>, v: i32)
    ensures
        final(out)@ == old(out)@ + leb128_signed(v as int),
{
    let _ = mini_leb128::write_i32(&mut *out, v);
}

/// Relies on `mini_leb128::write_i64`: appends the signed LEB128 encoding
/// of `v` to `out`. Writing into a `Vec<u8>` cannot fail, so the byte-count
/// result is dropped.
#[verifier::external_body]
pub(crate) fn write_i64(out: &mut Vec<u8>, v: i64)
    ensures
        final(out)@ == old(out)@ + leb128_signed(v as int),
{
    let _ = mini_leb128::write_i64(&mut *out, v);
}

} // verus!
