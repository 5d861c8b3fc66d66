//! Unsigned varints (LEB128), as encoded and decoded by `multi-trait`
//! through the `unsigned-varint` crate.

use vstd::arithmetic::power2::{lemma2_to64, lemma_pow2_adds, lemma_pow2_pos, pow2};
use vstd::prelude::*;
use vstd::string::to_string_from_display_ensures;

verus! {

/// The unsigned varint (LEB128) encoding of `n`: seven bits per byte, least
/// significant group first, the high bit set on every byte but the last.
pub open spec fn uvarint(n: nat) -> Seq<u8>
    decreases n,
{
    if n < 128 {
        seq![n as u8]
    } else {
        seq![(n % 128 + 128) as u8] + uvarint(n / 128)
    }
}

/// Why a varint could not be decoded.
pub enum VarintFault {
    /// The input ended before the last byte of the varint.
    Insufficient,
    /// The varint is longer than the target integer type allows.
    Overflow,
    /// The last byte of a multi-byte varint is zero.
    NotMinimal,
}

/// The decoding loop of `unsigned-varint`: byte `i` of `buf` is read with
/// the value `acc` of the bytes before it; `max_index` is the last index at
/// which a continuation byte is still accepted and `bits` the width of the
/// target integer, whose shifts drop the bits above it. A success holds the
/// value and the number of bytes consumed.
pub open spec fn uvarint_decode_from(
    buf: Seq<u8>,
    i: nat,
    acc: nat,
    max_index: nat,
    bits: nat,
) -> Result<(nat, nat), VarintFault>
    decreases buf.len() - i,
{
    if i >= buf.len() {
        Err(VarintFault::Insufficient)
    } else {
        let b = buf[i as int];
        let next = ((acc + (b % 128) * pow2(7 * i)) % (pow2(bits) as int)) as nat;
        if b < 128 {
            if b == 0 && i > 0 {
                Err(VarintFault::NotMinimal)
            } else {
                Ok((next, i + 1))
            }
        } else if i == max_index {
            Err(VarintFault::Overflow)
        } else {
            uvarint_decode_from(buf, i + 1, next, max_index, bits)
        }
    }
}

/// Decoding the varint at the front of `buf` into an integer of `bits` bits.
pub open spec fn uvarint_decode(buf: Seq<u8>, max_index: nat, bits: nat) -> Result<
    (nat, nat),
    VarintFault,
> {
    uvarint_decode_from(buf, 0, 0, max_index, bits)
}

/// The last index at which `unsigned-varint` accepts a continuation byte
/// when decoding a `usize` (it decodes a `u64` or a `u32`, after the
/// target's pointer width).
pub open spec fn usize_max_index() -> nat {
    if usize::BITS == 64 {
        9
    } else {
        4
    }
}

/// Decoding a `usize` varint at the front of `buf`.
pub open spec fn decode_usize_spec(buf: Seq<u8>) -> Result<(nat, nat), VarintFault> {
    uvarint_decode(buf, usize_max_index(), usize::BITS as nat)
}

/// Decoding a `u8` varint at the front of `buf`.
pub open spec fn decode_u8_spec(buf: Seq<u8>) -> Result<(nat, nat), VarintFault> {
    uvarint_decode(buf, 1, 8)
}

/// Decoding a `u64` varint at the front of `buf`.
pub open spec fn decode_u64_spec(buf: Seq<u8>) -> Result<(nat, nat), VarintFault> {
    uvarint_decode(buf, 9, 64)
}

/// The text that `multi-trait` shows for a failed varint decoding.
pub open spec fn varint_error_text() -> Seq<char> {
    "failed to decode unsigned varint"@
}

/// `e` shows as [`varint_error_text`].
pub open spec fn is_varint_error(e: multi_trait::Error) -> bool {
    forall|s: String| #[trigger]
        to_string_from_display_ensures::<multi_trait::Error>(&e, s) ==> s@ == varint_error_text()
}

/// `<usize as multi_trait::EncodeInto>::encode_into`: the unsigned varint
/// encoding of `n`.
#[verifier::external_body]
pub(crate) fn encode_usize(n: usize) -> (r: Vec<u8>)
    ensures
        r@ == uvarint(n as nat),
{
    multi_trait::EncodeInto::encode_into(&n)
}

/// `<u8 as multi_trait::EncodeInto>::encode_into`: the unsigned varint
/// encoding of `n`.
#[verifier::external_body]
pub(crate) fn encode_u8(n: u8) -> (r: Vec<u8>)
    ensures
        r@ == uvarint(n as nat),
{
    multi_trait::EncodeInto::encode_into(&n)
}

/// `<usize as multi_trait::TryDecodeFrom>::try_decode_from`: decodes the
/// varint at the front of `bytes` and hands back the bytes after it; fails
/// exactly when `unsigned-varint`'s decoding loop does, with an error that
/// shows as "failed to decode unsigned varint".
#[verifier::external_body]
pub(crate) fn decode_usize(bytes: &[u8]) -> (r: Result<(usize, &[u8]), multi_trait::Error>)
    ensures
        match decode_usize_spec(bytes@) {
            Ok((v, k)) => r matches Ok((x, rest)) && x == v && rest@ == bytes@.skip(k as int),
            Err(_) => r matches Err(e) && is_varint_error(e),
        },
{
    <usize as multi_trait::TryDecodeFrom>::try_decode_from(bytes)
}

/// `<u8 as multi_trait::TryDecodeFrom>::try_decode_from`: decodes the
/// varint at the front of `bytes` and hands back the bytes after it; fails
/// exactly when `unsigned-varint`'s decoding loop does, with an error that
/// shows as "failed to decode unsigned varint".
#[verifier::external_body]
pub(crate) fn decode_u8(bytes: &[u8]) -> (r: Result<(u8, &[u8]), multi_trait::Error>)
    ensures
        match decode_u8_spec(bytes@) {
            Ok((v, k)) => r matches Ok((x, rest)) && x == v && rest@ == bytes@.skip(k as int),
            Err(_) => r matches Err(e) && is_varint_error(e),
        },
{
    <u8 as multi_trait::TryDecodeFrom>::try_decode_from(bytes)
}

/// `<u64 as multi_trait::TryDecodeFrom>::try_decode_from`: decodes the
/// varint at the front of `bytes` and hands back the bytes after it; fails
/// exactly when `unsigned-varint`'s decoding loop does, with an error that
/// shows as "failed to decode unsigned varint".
#[verifier::external_body]
pub(crate) fn decode_u64(bytes: &[u8]) -> (r: Result<(u64, &[u8]), multi_trait::Error>)
    ensures
        match decode_u64_spec(bytes@) {
            Ok((v, k)) => r matches Ok((x, rest)) && x == v && rest@ == bytes@.skip(k as int),
            Err(_) => r matches Err(e) && is_varint_error(e),
        },
{
    <u64 as multi_trait::TryDecodeFrom>::try_decode_from(bytes)
}

/// The encoding of a number below `2^(7k)` takes at most `k` bytes.
pub proof fn lemma_uvarint_len(n: nat, k: nat)
    requires
        n < pow2(7 * k),
    ensures
        1 <= uvarint(n).len() <= if k == 0 { 1 } else { k },
    decreases n,
{
    lemma2_to64();
    if n >= 128 {
        if k <= 1 {
            if k == 1 {
                assert(pow2(7) == 128);
            } else {
                assert(pow2(0) == 1);
            }
        } else {
            lemma_pow2_adds(7, 7 * (k - 1) as nat);
            assert(7 + 7 * (k - 1) as nat == 7 * k);
            assert(n / 128 < pow2(7 * (k - 1) as nat)) by (nonlinear_arith)
                requires
                    n < 128 * pow2(7 * (k - 1) as nat),
            ;
            lemma_uvarint_len(n / 128, (k - 1) as nat);
        }
    }
}

/// The last byte of the encoding of a positive number is not zero.
pub proof fn lemma_uvarint_last_nonzero(n: nat)
    requires
        n > 0,
    ensures
        uvarint(n).last() != 0,
    decreases n,
{
    if n >= 128 {
        lemma_uvarint_last_nonzero(n / 128);
        assert(uvarint(n).last() == uvarint(n / 128).last());
    }
}

/// The decoding loop reads back the encoding of `y` placed after the bytes
/// `pre`, whose value is `acc`.
proof fn lemma_decode_from_uvarint(
    pre: Seq<u8>,
    y: nat,
    rest: Seq<u8>,
    acc: nat,
    max_index: nat,
    bits: nat,
)
    requires
        acc < pow2(7 * pre.len()),
        acc + y * pow2(7 * pre.len()) < pow2(bits),
        pre.len() + uvarint(y).len() <= max_index + 1,
        pre.len() > 0 ==> y > 0,
    ensures
        uvarint_decode_from(pre + uvarint(y) + rest, pre.len(), acc, max_index, bits) == Ok::<
            (nat, nat),
            VarintFault,
        >((acc + y * pow2(7 * pre.len()), pre.len() + uvarint(y).len())),
    decreases y,
{
    let i = pre.len();
    let buf = pre + uvarint(y) + rest;
    let p = pow2(7 * i);
    lemma_pow2_pos(7 * i);
    lemma_pow2_pos(bits);
    assert(buf[i as int] == uvarint(y)[0]);
    if y < 128 {
        assert(uvarint(y) =~= seq![y as u8]);
        let b = buf[i as int];
        assert(b == y);
        assert(b % 128 == y);
        assert(0 <= acc + y * p < pow2(bits));
        vstd::arithmetic::div_mod::lemma_small_mod((acc + y * p) as nat, pow2(bits));
    } else {
        let b = buf[i as int];
        assert(b == (y % 128 + 128) as u8);
        assert(b % 128 == y % 128);
        let y2 = y / 128;
        let acc2 = acc + (y % 128) * p;
        assert(y == 128 * y2 + y % 128) by {
            vstd::arithmetic::div_mod::lemma_fundamental_div_mod(y as int, 128);
        }
        lemma_pow2_adds(7 * i, 7);
        lemma2_to64();
        assert(7 * i + 7 == 7 * (i + 1));
        assert(pow2(7 * (i + 1)) == p * 128);
        assert(acc2 < pow2(7 * (i + 1))) by (nonlinear_arith)
            requires
                acc < p,
                acc2 == acc + (y % 128) * p,
                y % 128 < 128,
                pow2(7 * (i + 1)) == p * 128,
        ;
        assert(acc2 + y2 * pow2(7 * (i + 1)) == acc + y * p) by (nonlinear_arith)
            requires
                acc2 == acc + (y % 128) * p,
                pow2(7 * (i + 1)) == p * 128,
                y == 128 * y2 + y % 128,
        ;
        assert((y % 128) * p <= y * p) by (nonlinear_arith)
            requires
                y % 128 <= y,
                p > 0,
        ;
        vstd::arithmetic::div_mod::lemma_small_mod(acc2 as nat, pow2(bits));
        assert(uvarint(y) =~= seq![b] + uvarint(y2));
        let pre2 = pre.push(b);
        assert(buf =~= pre2 + uvarint(y2) + rest);
        assert(uvarint(y).len() >= 2);
        assert(i < max_index);
        lemma_decode_from_uvarint(pre2, y2, rest, acc2, max_index, bits);
    }
}

/// Decoding reads back the encoding of `n`, followed by anything, when `n`
/// fits in `bits` bits and its encoding ends no later than `max_index`.
pub proof fn lemma_decode_uvarint(n: nat, rest: Seq<u8>, max_index: nat, bits: nat)
    requires
        n < pow2(bits),
        uvarint(n).len() <= max_index + 1,
    ensures
        uvarint_decode(uvarint(n) + rest, max_index, bits) == Ok::<(nat, nat), VarintFault>(
            (n, uvarint(n).len()),
        ),
{
    let pre = Seq::<u8>::empty();
    assert(pre + uvarint(n) + rest =~= uvarint(n) + rest);
    lemma2_to64();
    assert(pow2(7 * 0) == 1);
    lemma_decode_from_uvarint(pre, n, rest, 0, max_index, bits);
}

/// Decoding a `usize` reads back its encoding, followed by anything.
pub proof fn lemma_decode_usize(n: usize, rest: Seq<u8>)
    ensures
        decode_usize_spec(uvarint(n as nat) + rest) == Ok::<(nat, nat), VarintFault>(
            (n as nat, uvarint(n as nat).len()),
        ),
{
    lemma2_to64();
    lemma_pow2_adds(64, 6);
    lemma_pow2_adds(32, 3);
    assert(pow2(64) == 0x1_0000_0000_0000_0000);
    if usize::BITS == 64 {
        assert(n < pow2(64));
        lemma_pow2_pos(6);
        assert(pow2(70) >= pow2(64));
        lemma_uvarint_len(n as nat, 10);
    } else {
        assert(usize::BITS == 32);
        assert(n < pow2(32));
        assert(pow2(35) >= pow2(32));
        lemma_uvarint_len(n as nat, 5);
    }
    lemma_decode_uvarint(n as nat, rest, usize_max_index(), usize::BITS as nat);
}

/// A successful decoding consumes at least one byte and no more than there
/// are.
pub proof fn lemma_decode_within(buf: Seq<u8>, i: nat, acc: nat, max_index: nat, bits: nat)
    ensures
        uvarint_decode_from(buf, i, acc, max_index, bits) matches Ok((_, k)) ==> i < k <= buf.len(),
    decreases buf.len() - i,
{
    if i < buf.len() {
        let b = buf[i as int];
        let next = ((acc + (b % 128) * pow2(7 * i)) % (pow2(bits) as int)) as nat;
        if b >= 128 && i != max_index {
            lemma_decode_within(buf, i + 1, next, max_index, bits);
        }
    }
}

/// Decoding a `u64` reads back its encoding, followed by anything.
pub proof fn lemma_decode_u64(n: u64, rest: Seq<u8>)
    ensures
        decode_u64_spec(uvarint(n as nat) + rest) == Ok::<(nat, nat), VarintFault>(
            (n as nat, uvarint(n as nat).len()),
        ),
{
    lemma2_to64();
    lemma_pow2_adds(64, 6);
    assert(pow2(64) == 0x1_0000_0000_0000_0000);
    assert(n < pow2(64));
    lemma_pow2_pos(6);
    assert(pow2(70) >= pow2(64));
    lemma_uvarint_len(n as nat, 10);
    lemma_decode_uvarint(n as nat, rest, 9, 64);
}

/// Decoding a `u8` below 128 reads back its one-byte encoding.
pub proof fn lemma_decode_small_u8(n: u8, rest: Seq<u8>)
    requires
        n < 128,
    ensures
        uvarint(n as nat) =~= seq![n],
        decode_u8_spec(uvarint(n as nat) + rest) == Ok::<(nat, nat), VarintFault>((n as nat, 1)),
{
    lemma2_to64();
    lemma_decode_uvarint(n as nat, rest, 1, 8);
}

/// The varint of a number below 2^7 is the number itself in one byte; that
/// of a number below 2^14 is its low seven bits with the high bit set, then
/// the rest in a second byte.
pub proof fn lemma_uvarint_short_forms(n: nat)
    ensures
        n < 128 ==> uvarint(n) == seq![n as u8],
        128 <= n < 16384 ==> uvarint(n) == seq![(n % 128 + 128) as u8, (n / 128) as u8],
{
    if 128 <= n < 16384 {
        assert(n / 128 < 128);
        assert(uvarint(n / 128) == seq![(n / 128) as u8]);
        assert(uvarint(n) =~= seq![(n % 128 + 128) as u8, (n / 128) as u8]);
    }
}

} // verus!
