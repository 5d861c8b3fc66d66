//! The CBOR form of the threshold metadata blobs: writing the two structs
//! as a map of two text keys to their values, in the layout that `ciborium`
//! writes, and reading them back from any map, of definite or indefinite
//! length, that holds their fields in any order, with integers in any width,
//! optional fields left out, tags in front of items and the entries of other
//! keys passed over.

use crate::cbor::{be_value, cbor_head, cbor_null, head_at, lemma_head_at, push_all, push_head, read_head};
use vstd::prelude::*;

verus! {

/// The head of a CBOR map of two entries.
pub open spec fn map2_head() -> Seq<u8> {
    seq![0xa2u8]
}

/// The text key `threshold`, with its head.
pub open spec fn key_threshold() -> Seq<u8> {
    seq![0x69u8, 0x74, 0x68, 0x72, 0x65, 0x73, 0x68, 0x6f, 0x6c, 0x64]
}

/// The text key `limit`, with its head.
pub open spec fn key_limit() -> Seq<u8> {
    seq![0x65u8, 0x6c, 0x69, 0x6d, 0x69, 0x74]
}

/// The text key `cipher_codec`, with its head.
pub open spec fn key_cipher_codec() -> Seq<u8> {
    seq![0x6cu8, 0x63, 0x69, 0x70, 0x68, 0x65, 0x72, 0x5f, 0x63, 0x6f, 0x64, 0x65, 0x63]
}

/// The text key `nonce`, with its head.
pub open spec fn key_nonce() -> Seq<u8> {
    seq![0x65u8, 0x6e, 0x6f, 0x6e, 0x63, 0x65]
}

/// An optional `u16`: the integer, or `null`.
pub open spec fn opt_u16_cbor(v: Option<u16>) -> Seq<u8> {
    match v {
        Some(x) => cbor_head(0, x as nat),
        None => cbor_null(),
    }
}

/// The bytes of `s` as CBOR unsigned integers, one after the other.
pub open spec fn uint_items(s: Seq<u8>) -> Seq<u8>
    decreases s.len(),
{
    if s.len() == 0 {
        Seq::empty()
    } else {
        uint_items(s.drop_last()) + cbor_head(0, s.last() as nat)
    }
}

/// The CBOR encoding of threshold metadata with the given fields.
pub open spec fn metadata_layout(threshold: Option<u16>, limit: Option<u16>) -> Seq<u8> {
    map2_head() + key_threshold() + opt_u16_cbor(threshold) + key_limit() + opt_u16_cbor(limit)
}

/// The CBOR encoding of cipher parameters with the given fields; the nonce
/// is an array of unsigned integers.
pub open spec fn cipher_layout(code: u64, nonce: Seq<u8>) -> Seq<u8> {
    map2_head() + key_cipher_codec() + cbor_head(0, code as nat) + key_nonce() + cbor_head(
        4,
        nonce.len(),
    ) + uint_items(nonce)
}

/// The index of the first head at or after `pos` in `b` that is not a tag:
/// tags (major type 6) in front of an item are passed over.
pub open spec fn untag(b: Seq<u8>, pos: int) -> int
    decreases b.len() - pos,
{
    match head_at(b, pos) {
        Some((major, _, next)) => if major == 6 && pos < next <= b.len() {
            untag(b, next)
        } else {
            pos
        },
        None => pos,
    }
}

/// Whether the byte at index `pos` of `b` starts an item of major type
/// `major` of indefinite length.
pub open spec fn indefinite_at(b: Seq<u8>, pos: int, major: nat) -> bool {
    0 <= pos < b.len() && b[pos] == major * 32 + 31
}

/// Whether the byte at index `pos` of `b` is the break that ends an item of
/// indefinite length.
pub open spec fn break_at(b: Seq<u8>, pos: int) -> bool {
    0 <= pos < b.len() && b[pos] == 0xff
}

/// The index after `n` well-formed data items from index `pos` of `b`:
/// integers, byte and text strings, arrays, maps (of definite or indefinite
/// length), tagged items, and simple values or floats.
pub open spec fn skip_items(b: Seq<u8>, pos: int, n: nat) -> Option<int>
    decreases b.len() - pos, 1int,
{
    if n == 0 {
        Some(pos)
    } else if pos < 0 || n > b.len() - pos {
        None
    } else if indefinite_at(b, pos, 2) || indefinite_at(b, pos, 3) || indefinite_at(b, pos, 4)
        || indefinite_at(b, pos, 5) {
        let major = (b[pos] / 32) as nat;
        let end = if major == 2 || major == 3 {
            skip_chunks(b, pos + 1, major)
        } else {
            skip_open(b, pos + 1, if major == 4 {
                1
            } else {
                2
            })
        };
        match end {
            Some(p2) => if p2 <= pos || p2 > b.len() {
                None
            } else {
                skip_items(b, p2, (n - 1) as nat)
            },
            None => None,
        }
    } else {
        match head_at(b, pos) {
            None => None,
            Some((major, v, next)) => if next <= pos || next > b.len() {
                None
            } else if major == 2 || major == 3 {
                if next + v <= b.len() {
                    skip_items(b, next + v, (n - 1) as nat)
                } else {
                    None
                }
            } else if major == 4 {
                skip_items(b, next, (n - 1 + v) as nat)
            } else if major == 5 {
                skip_items(b, next, (n - 1 + 2 * v) as nat)
            } else if major == 6 {
                skip_items(b, next, n)
            } else {
                skip_items(b, next, (n - 1) as nat)
            }
        }
    }
}

/// The index after the definite-length chunks of major type `major` from
/// index `pos` of `b` and the break that ends them.
pub open spec fn skip_chunks(b: Seq<u8>, pos: int, major: nat) -> Option<int>
    decreases b.len() - pos,
{
    if pos < 0 || pos >= b.len() {
        None
    } else if break_at(b, pos) {
        Some(pos + 1)
    } else {
        match head_at(b, pos) {
            Some((m, len, next)) => if m == major && pos < next && next + len <= b.len() {
                skip_chunks(b, next + len, major)
            } else {
                None
            },
            None => None,
        }
    }
}

/// The index after the groups of `per` items from index `pos` of `b` and
/// the break that ends them.
pub open spec fn skip_open(b: Seq<u8>, pos: int, per: nat) -> Option<int>
    decreases b.len() - pos, 2int,
{
    if pos < 0 || pos >= b.len() {
        None
    } else if break_at(b, pos) {
        Some(pos + 1)
    } else {
        match skip_items(b, pos, per) {
            Some(p2) => if p2 <= pos || p2 > b.len() {
                None
            } else {
                skip_open(b, p2, per)
            },
            None => None,
        }
    }
}

/// A map key at index `pos` of `b` (tags passed over): a text or byte
/// string of at most 4096 bytes, its bytes and the index after it.
pub open spec fn key_item(b: Seq<u8>, pos: int) -> Option<(Seq<u8>, int)> {
    let p = untag(b, pos);
    match head_at(b, p) {
        Some((major, len, next)) => if (major == 2 || major == 3) && len <= 4096 && next + len
            <= b.len() {
            Some((b.subrange(next, next + len), next + len))
        } else {
            None
        },
        None => None,
    }
}

/// The index of the first head at or after `pos` in `b` that is not a tag
/// other than the bignum tags 2 and 3: the tags that an integer may carry
/// in front and that say nothing of it.
pub open spec fn untag_int(b: Seq<u8>, pos: int) -> int
    decreases b.len() - pos,
{
    match head_at(b, pos) {
        Some((major, v, next)) => if major == 6 && v != 2 && v != 3 && pos < next <= b.len() {
            untag_int(b, next)
        } else {
            pos
        },
        None => pos,
    }
}

/// A byte string at index `pos` of `b`, of definite length or in chunks,
/// and the index after it.
pub open spec fn byte_string_item(b: Seq<u8>, pos: int) -> Option<(Seq<u8>, int)> {
    if indefinite_at(b, pos, 2) {
        byte_chunks(b, pos + 1, Seq::empty())
    } else {
        match head_at(b, pos) {
            Some((major, n, next)) => if major == 2 && next + n <= b.len() {
                Some((b.subrange(next, next + n), next + n))
            } else {
                None
            },
            None => None,
        }
    }
}

/// 2^128, the bound of the unsigned bignums that are read.
pub open spec fn bignum_bound() -> nat {
    0x1_0000_0000_0000_0000nat * 0x1_0000_0000_0000_0000nat
}

/// An unsigned integer at index `pos` of `b` (tags other than the bignum
/// tags passed over): a head of major type 0, or a byte string tagged 2
/// (an unsigned bignum) whose big-endian value is below 2^128; and the index
/// after it.
pub open spec fn uint_item(b: Seq<u8>, pos: int) -> Option<(nat, int)> {
    let p = untag_int(b, pos);
    match head_at(b, p) {
        Some((major, v, next)) => if major == 0 {
            Some((v, next))
        } else if major == 6 && v == 2 {
            match byte_string_item(b, next) {
                Some((s, end)) => if be_value(s) < bignum_bound() {
                    Some((be_value(s), end))
                } else {
                    None
                },
                None => None,
            }
        } else {
            None
        },
        None => None,
    }
}

/// An optional `u16` at index `pos` of `b`: `null` or `undefined` for none,
/// else an unsigned integer below 2^16; and the index after it.
pub open spec fn opt_u16_item(b: Seq<u8>, pos: int) -> Option<(Option<u16>, int)> {
    match head_at(b, pos) {
        Some((major, v, next)) => if major == 7 && (v == 22 || v == 23) && next - pos <= 2 {
            Some((None, next))
        } else {
            match uint_item(b, pos) {
                Some((x, n2)) => if x < 0x1_0000 {
                    Some((Some(x as u16), n2))
                } else {
                    None
                },
                None => None,
            }
        },
        None => None,
    }
}

/// `count` unsigned integers below 256 from index `pos` of `b`, and the
/// index after them.
pub open spec fn items_at(b: Seq<u8>, pos: int, count: nat) -> Option<(Seq<u8>, int)>
    decreases count,
{
    if count == 0 {
        Some((Seq::empty(), pos))
    } else {
        match items_at(b, pos, (count - 1) as nat) {
            Some((s, p)) => match uint_item(b, p) {
                Some((v, next)) => if v < 0x100 {
                    Some((s.push(v as u8), next))
                } else {
                    None
                },
                None => None,
            },
            None => None,
        }
    }
}

/// Unsigned integers below 256 from index `pos` of `b` up to a break,
/// after the bytes `acc`; and the index after the break.
pub open spec fn items_open(b: Seq<u8>, pos: int, acc: Seq<u8>) -> Option<(Seq<u8>, int)>
    decreases b.len() - pos,
{
    if pos < 0 || pos >= b.len() {
        None
    } else if break_at(b, pos) {
        Some((acc, pos + 1))
    } else {
        match uint_item(b, pos) {
            Some((v, next)) => if v < 0x100 && pos < next <= b.len() {
                items_open(b, next, acc.push(v as u8))
            } else {
                None
            },
            None => None,
        }
    }
}

/// The bytes of the definite-length byte string chunks from index `pos` of
/// `b` up to a break, after the bytes `acc`; and the index after the break.
pub open spec fn byte_chunks(b: Seq<u8>, pos: int, acc: Seq<u8>) -> Option<(Seq<u8>, int)>
    decreases b.len() - pos,
{
    if pos < 0 || pos >= b.len() {
        None
    } else if break_at(b, pos) {
        Some((acc, pos + 1))
    } else {
        match head_at(b, pos) {
            Some((m, len, next)) => if m == 2 && pos < next && next + len <= b.len() {
                byte_chunks(b, next + len, acc + b.subrange(next, next + len))
            } else {
                None
            },
            None => None,
        }
    }
}

/// A byte sequence at index `pos` of `b` (tags passed over): an array of
/// unsigned integers below 256, or a byte string, of definite or indefinite
/// length; and the index after it.
pub open spec fn bytes_item(b: Seq<u8>, pos: int) -> Option<(Seq<u8>, int)> {
    let p = untag(b, pos);
    if indefinite_at(b, p, 4) {
        items_open(b, p + 1, Seq::empty())
    } else if indefinite_at(b, p, 2) {
        byte_chunks(b, p + 1, Seq::empty())
    } else {
        match head_at(b, p) {
            Some((major, n, next)) => if major == 4 {
                items_at(b, next, n)
            } else if major == 2 && next + n <= b.len() {
                Some((b.subrange(next, next + n), next + n))
            } else {
                None
            },
            None => None,
        }
    }
}

/// The text `threshold`.
pub open spec fn text_threshold() -> Seq<u8> {
    seq![0x74u8, 0x68, 0x72, 0x65, 0x73, 0x68, 0x6f, 0x6c, 0x64]
}

/// The text `limit`.
pub open spec fn text_limit() -> Seq<u8> {
    seq![0x6cu8, 0x69, 0x6d, 0x69, 0x74]
}

/// The text `cipher_codec`.
pub open spec fn text_cipher_codec() -> Seq<u8> {
    seq![0x63u8, 0x69, 0x70, 0x68, 0x65, 0x72, 0x5f, 0x63, 0x6f, 0x64, 0x65, 0x63]
}

/// The text `nonce`.
pub open spec fn text_nonce() -> Seq<u8> {
    seq![0x6eu8, 0x6f, 0x6e, 0x63, 0x65]
}

/// Reading one entry of a threshold metadata map at index `pos` of `b`,
/// with the fields `t` and `l` read so far (`None` where not yet seen): a
/// field may come at most once, and any other key's value is passed over.
/// Gives the fields and the index after the entry.
pub open spec fn meta_entry(
    b: Seq<u8>,
    pos: int,
    t: Option<Option<u16>>,
    l: Option<Option<u16>>,
) -> Option<(Option<Option<u16>>, Option<Option<u16>>, int)> {
    match key_item(b, pos) {
        None => None,
        Some((k, p1)) => if k == text_threshold() {
            if t is Some {
                None
            } else {
                match opt_u16_item(b, p1) {
                    Some((v, p2)) => Some((Some(v), l, p2)),
                    None => None,
                }
            }
        } else if k == text_limit() {
            if l is Some {
                None
            } else {
                match opt_u16_item(b, p1) {
                    Some((v, p2)) => Some((t, Some(v), p2)),
                    None => None,
                }
            }
        } else {
            match skip_items(b, p1, 1) {
                Some(p2) => Some((t, l, p2)),
                None => None,
            }
        },
    }
}

/// Reading `n` entries of a threshold metadata map from index `pos` of `b`.
pub open spec fn meta_entries(
    b: Seq<u8>,
    pos: int,
    n: nat,
    t: Option<Option<u16>>,
    l: Option<Option<u16>>,
) -> Option<(Option<Option<u16>>, Option<Option<u16>>)>
    decreases n,
{
    if n == 0 {
        Some((t, l))
    } else {
        match meta_entry(b, pos, t, l) {
            Some((t2, l2, p2)) => meta_entries(b, p2, (n - 1) as nat, t2, l2),
            None => None,
        }
    }
}

/// Reading the entries of a threshold metadata map of indefinite length
/// from index `pos` of `b`, up to its break.
pub open spec fn meta_open(
    b: Seq<u8>,
    pos: int,
    t: Option<Option<u16>>,
    l: Option<Option<u16>>,
) -> Option<(Option<Option<u16>>, Option<Option<u16>>)>
    decreases b.len() - pos,
{
    if pos < 0 || pos >= b.len() {
        None
    } else if break_at(b, pos) {
        Some((t, l))
    } else {
        match meta_entry(b, pos, t, l) {
            Some((t2, l2, p2)) => if p2 <= pos || p2 > b.len() {
                None
            } else {
                meta_open(b, p2, t2, l2)
            },
            None => None,
        }
    }
}

/// Reading one entry of a cipher parameters map at index `pos` of `b`, with
/// the fields `c` and `nc` read so far: a field may come at most once, and
/// any other key's value is passed over.
pub open spec fn cipher_entry(
    b: Seq<u8>,
    pos: int,
    c: Option<u64>,
    nc: Option<Seq<u8>>,
) -> Option<(Option<u64>, Option<Seq<u8>>, int)> {
    match key_item(b, pos) {
        None => None,
        Some((k, p1)) => if k == text_cipher_codec() {
            if c is Some {
                None
            } else {
                match uint_item(b, p1) {
                    Some((v, p2)) => if v < 0x1_0000_0000_0000_0000 {
                        Some((Some(v as u64), nc, p2))
                    } else {
                        None
                    },
                    None => None,
                }
            }
        } else if k == text_nonce() {
            if nc is Some {
                None
            } else {
                match bytes_item(b, p1) {
                    Some((v, p2)) => Some((c, Some(v), p2)),
                    None => None,
                }
            }
        } else {
            match skip_items(b, p1, 1) {
                Some(p2) => Some((c, nc, p2)),
                None => None,
            }
        },
    }
}

/// Reading `n` entries of a cipher parameters map from index `pos` of `b`.
pub open spec fn cipher_entries(
    b: Seq<u8>,
    pos: int,
    n: nat,
    c: Option<u64>,
    nc: Option<Seq<u8>>,
) -> Option<(Option<u64>, Option<Seq<u8>>)>
    decreases n,
{
    if n == 0 {
        Some((c, nc))
    } else {
        match cipher_entry(b, pos, c, nc) {
            Some((c2, nc2, p2)) => cipher_entries(b, p2, (n - 1) as nat, c2, nc2),
            None => None,
        }
    }
}

/// Reading the entries of a cipher parameters map of indefinite length from
/// index `pos` of `b`, up to its break.
pub open spec fn cipher_open(b: Seq<u8>, pos: int, c: Option<u64>, nc: Option<Seq<u8>>) -> Option<
    (Option<u64>, Option<Seq<u8>>),
>
    decreases b.len() - pos,
{
    if pos < 0 || pos >= b.len() {
        None
    } else if break_at(b, pos) {
        Some((c, nc))
    } else {
        match cipher_entry(b, pos, c, nc) {
            Some((c2, nc2, p2)) => if p2 <= pos || p2 > b.len() {
                None
            } else {
                cipher_open(b, p2, c2, nc2)
            },
            None => None,
        }
    }
}

/// The fields that the entries of a threshold metadata map give: a field
/// that was not seen is none.
pub open spec fn finish_metadata(r: Option<(Option<Option<u16>>, Option<Option<u16>>)>) -> Option<
    (Option<u16>, Option<u16>),
> {
    match r {
        Some((t, l)) => Some(
            (
                match t {
                    Some(x) => x,
                    None => None,
                },
                match l {
                    Some(x) => x,
                    None => None,
                },
            ),
        ),
        None => None,
    }
}

/// The fields that the entries of a cipher parameters map give: both must
/// have been seen.
pub open spec fn finish_cipher(r: Option<(Option<u64>, Option<Seq<u8>>)>) -> Option<(u64, Seq<u8>)> {
    match r {
        Some((Some(c), Some(nc))) => Some((c, nc)),
        _ => None,
    }
}

/// Reading threshold metadata from `b`: a map of definite or indefinite
/// length (tags in front passed over) whose `threshold` and `limit` entries, in any order,
/// hold an optional `u16` each; a missing entry reads as none, entries of
/// other keys are passed over, a repeated entry is refused, and bytes after
/// the map are not read.
pub open spec fn parse_metadata(b: Seq<u8>) -> Option<(Option<u16>, Option<u16>)> {
    let p = untag(b, 0);
    if indefinite_at(b, p, 5) {
        finish_metadata(meta_open(b, p + 1, None, None))
    } else {
        match head_at(b, p) {
        Some((major, n, next)) => if major == 5 {
            finish_metadata(meta_entries(b, next, n, None, None))
        } else {
            None
        },
        None => None,
    }
    }
}

/// Reading cipher parameters from `b`: a map of definite or indefinite
/// length (tags in front passed over) whose `cipher_codec` entry holds an unsigned integer
/// and whose `nonce` entry holds an array of bytes or a byte string, in any
/// order and both present; entries of other keys are passed over, a repeated
/// entry is refused, and bytes after the map are not read.
pub open spec fn parse_cipher(b: Seq<u8>) -> Option<(u64, Seq<u8>)> {
    let p = untag(b, 0);
    if indefinite_at(b, p, 5) {
        finish_cipher(cipher_open(b, p + 1, None, None))
    } else {
        match head_at(b, p) {
        Some((major, n, next)) => if major == 5 {
            finish_cipher(cipher_entries(b, next, n, None, None))
        } else {
            None
        },
        None => None,
    }
    }
}


proof fn lemma_key_item(pre: Seq<u8>, text: Seq<u8>, rest: Seq<u8>)
    requires
        text.len() < 24,
    ensures
        key_item(pre + cbor_head(3, text.len()) + text + rest, pre.len() as int) == Some(
            (text, (pre.len() + cbor_head(3, text.len()).len() + text.len()) as int),
        ),
{
    let h = cbor_head(3, text.len());
    let b = pre + h + text + rest;
    assert(b =~= pre + h + (text + rest));
    lemma_head_at(pre, 3, text.len(), text + rest);
    let next = pre.len() + h.len();
    assert(b.subrange(next as int, (next + text.len()) as int) =~= text);
}

proof fn lemma_uint_item(pre: Seq<u8>, v: nat, rest: Seq<u8>)
    requires
        v < 0x1_0000_0000_0000_0000,
    ensures
        uint_item(pre + cbor_head(0, v) + rest, pre.len() as int) == Some(
            (v, (pre.len() + cbor_head(0, v).len()) as int),
        ),
{
    lemma_head_at(pre, 0, v, rest);
}

proof fn lemma_opt_u16_item(pre: Seq<u8>, v: Option<u16>, rest: Seq<u8>)
    ensures
        opt_u16_item(pre + opt_u16_cbor(v) + rest, pre.len() as int) == Some(
            (v, (pre.len() + opt_u16_cbor(v).len()) as int),
        ),
{
    let b = pre + opt_u16_cbor(v) + rest;
    match v {
        Some(x) => {
            lemma_head_at(pre, 0, x as nat, rest);
            lemma_uint_item(pre, x as nat, rest);
        },
        None => {
            assert(b[pre.len() as int] == 0xf6);
        },
    }
}

proof fn lemma_items_at(pre: Seq<u8>, s: Seq<u8>, rest: Seq<u8>)
    ensures
        items_at(pre + uint_items(s) + rest, pre.len() as int, s.len()) == Some(
            (s, (pre.len() + uint_items(s).len()) as int),
        ),
    decreases s.len(),
{
    if s.len() > 0 {
        let s2 = s.drop_last();
        let last = s.last();
        let h = cbor_head(0, last as nat);
        let b = pre + uint_items(s) + rest;
        assert(b =~= pre + uint_items(s2) + (h + rest));
        lemma_items_at(pre, s2, h + rest);
        assert(b =~= (pre + uint_items(s2)) + h + rest);
        lemma_uint_item(pre + uint_items(s2), last as nat, rest);
        assert(s2.push(last) =~= s);
    } else {
        assert(s =~= Seq::<u8>::empty());
    }
}

proof fn lemma_items_none(b: Seq<u8>, pos: int, i: nat, count: nat)
    requires
        i <= count,
        items_at(b, pos, i) is None,
    ensures
        items_at(b, pos, count) is None,
    decreases count - i,
{
    if i < count {
        lemma_items_none(b, pos, i + 1, count);
    }
}

/// The written keys are text heads followed by their text.
proof fn lemma_keys()
    ensures
        key_threshold() == cbor_head(3, 9) + text_threshold(),
        key_limit() == cbor_head(3, 5) + text_limit(),
        key_cipher_codec() == cbor_head(3, 12) + text_cipher_codec(),
        key_nonce() == cbor_head(3, 5) + text_nonce(),
        map2_head() == cbor_head(5, 2),
        text_threshold().len() == 9,
        text_limit().len() == 5,
        text_cipher_codec().len() == 12,
        text_nonce().len() == 5,
{
    assert(cbor_head(3, 9) =~= seq![0x69u8]);
    assert(cbor_head(3, 5) =~= seq![0x65u8]);
    assert(cbor_head(3, 12) =~= seq![0x6cu8]);
    assert(cbor_head(5, 2) =~= seq![0xa2u8]);
    assert(key_threshold() =~= cbor_head(3, 9) + text_threshold());
    assert(key_limit() =~= cbor_head(3, 5) + text_limit());
    assert(key_cipher_codec() =~= cbor_head(3, 12) + text_cipher_codec());
    assert(key_nonce() =~= cbor_head(3, 5) + text_nonce());
}

/// Threshold metadata is read back from its encoding.
#[verifier::rlimit(60)]
pub proof fn lemma_parse_metadata(t: Option<u16>, l: Option<u16>)
    ensures
        parse_metadata(metadata_layout(t, l)) == Some((t, l)),
{
    lemma_keys();
    let e = Seq::<u8>::empty();
    let b = metadata_layout(t, l);
    let ot = opt_u16_cbor(t);
    let ol = opt_u16_cbor(l);
    let h3 = cbor_head(3, 9);
    let h5 = cbor_head(3, 5);
    assert(b =~= e + cbor_head(5, 2) + (key_threshold() + ot + key_limit() + ol));
    lemma_head_at(e, 5, 2, key_threshold() + ot + key_limit() + ol);
    let p0 = map2_head();
    assert(b =~= p0 + h3 + text_threshold() + (ot + key_limit() + ol));
    lemma_key_item(p0, text_threshold(), ot + key_limit() + ol);
    let p1 = p0 + key_threshold();
    assert(b =~= p1 + ot + (key_limit() + ol));
    lemma_opt_u16_item(p1, t, key_limit() + ol);
    let p2 = p1 + ot;
    assert(meta_entry(b, 1, None, None) == Some((Some(t), None::<Option<u16>>, p2.len() as int)));
    assert(b =~= p2 + h5 + text_limit() + ol);
    lemma_key_item(p2, text_limit(), ol);
    let p3 = p2 + key_limit();
    assert(b =~= p3 + ol + e);
    lemma_opt_u16_item(p3, l, e);
    assert(text_limit() != text_threshold());
    let n3 = (p3.len() + ol.len()) as int;
    assert(meta_entry(b, p2.len() as int, Some(t), None) == Some((Some(t), Some(l), n3)));
    assert(b[0] == 0xa2);
    assert(meta_entries(b, n3, 0, Some(t), Some(l)) == Some((Some(t), Some(l))));
    assert(meta_entries(b, p2.len() as int, 1, Some(t), None) == Some((Some(t), Some(l))));
    assert(meta_entries(b, 1, 2, None, None) == Some((Some(t), Some(l))));
}

proof fn lemma_nonce_item(pre: Seq<u8>, nonce: Seq<u8>, rest: Seq<u8>)
    requires
        nonce.len() < 0x1_0000_0000_0000_0000,
    ensures
        bytes_item(pre + cbor_head(4, nonce.len()) + uint_items(nonce) + rest, pre.len() as int)
            == Some(
            (
                nonce,
                (pre.len() + cbor_head(4, nonce.len()).len() + uint_items(nonce).len()) as int,
            ),
        ),
{
    let hn = cbor_head(4, nonce.len());
    let items = uint_items(nonce);
    let b = pre + hn + items + rest;
    assert(b =~= pre + hn + (items + rest));
    lemma_head_at(pre, 4, nonce.len(), items + rest);
    lemma_items_at(pre + hn, nonce, rest);
    assert(b[pre.len() as int] == hn[0]);
}

/// Cipher parameters are read back from their encoding.
#[verifier::rlimit(60)]
pub proof fn lemma_parse_cipher(code: u64, nonce: Seq<u8>)
    requires
        nonce.len() < 0x1_0000_0000_0000_0000,
    ensures
        parse_cipher(cipher_layout(code, nonce)) == Some((code, nonce)),
{
    lemma_keys();
    let e = Seq::<u8>::empty();
    let b = cipher_layout(code, nonce);
    let hc = cbor_head(0, code as nat);
    let hn = cbor_head(4, nonce.len());
    let items = uint_items(nonce);
    let h12 = cbor_head(3, 12);
    let h5 = cbor_head(3, 5);
    assert(b =~= e + cbor_head(5, 2) + (key_cipher_codec() + hc + key_nonce() + hn + items));
    lemma_head_at(e, 5, 2, key_cipher_codec() + hc + key_nonce() + hn + items);
    let p0 = map2_head();
    assert(b =~= p0 + h12 + text_cipher_codec() + (hc + key_nonce() + hn + items));
    lemma_key_item(p0, text_cipher_codec(), hc + key_nonce() + hn + items);
    let p1 = p0 + key_cipher_codec();
    assert(b =~= p1 + hc + (key_nonce() + hn + items));
    lemma_uint_item(p1, code as nat, key_nonce() + hn + items);
    let p2 = p1 + hc;
    assert(cipher_entry(b, 1, None, None) == Some((Some(code), None::<Seq<u8>>, p2.len() as int)));
    assert(b =~= p2 + h5 + text_nonce() + (hn + items));
    lemma_key_item(p2, text_nonce(), hn + items);
    let p3 = p2 + key_nonce();
    assert(b =~= p3 + hn + items + e);
    lemma_nonce_item(p3, nonce, e);
    assert(text_nonce() != text_cipher_codec());
    let n4 = (p3.len() + hn.len() + items.len()) as int;
    assert(cipher_entry(b, p2.len() as int, Some(code), None) == Some(
        (Some(code), Some(nonce), n4),
    ));
    assert(cipher_entries(b, n4, 0, Some(code), Some(nonce)) == Some((Some(code), Some(nonce))));
    assert(cipher_entries(b, p2.len() as int, 1, Some(code), None) == Some(
        (Some(code), Some(nonce)),
    ));
    assert(cipher_entries(b, 1, 2, None, None) == Some((Some(code), Some(nonce))));
    assert(b[0] == 0xa2);
}

fn key_threshold_bytes() -> (r: [u8; 10])
    ensures
        r@ == key_threshold(),
{
    let r: [u8; 10] = [0x69, 0x74, 0x68, 0x72, 0x65, 0x73, 0x68, 0x6f, 0x6c, 0x64];
    assert(r@ =~= key_threshold());
    r
}

fn key_limit_bytes() -> (r: [u8; 6])
    ensures
        r@ == key_limit(),
{
    let r: [u8; 6] = [0x65, 0x6c, 0x69, 0x6d, 0x69, 0x74];
    assert(r@ =~= key_limit());
    r
}

fn key_cipher_codec_bytes() -> (r: [u8; 13])
    ensures
        r@ == key_cipher_codec(),
{
    let r: [u8; 13] = [0x6c, 0x63, 0x69, 0x70, 0x68, 0x65, 0x72, 0x5f, 0x63, 0x6f, 0x64, 0x65, 0x63];
    assert(r@ =~= key_cipher_codec());
    r
}

fn key_nonce_bytes() -> (r: [u8; 6])
    ensures
        r@ == key_nonce(),
{
    let r: [u8; 6] = [0x65, 0x6e, 0x6f, 0x6e, 0x63, 0x65];
    assert(r@ =~= key_nonce());
    r
}

fn push_opt_u16(out: &mut Vec<u8>, v: Option<u16>)
    ensures
        final(out)@ == old(out)@ + opt_u16_cbor(v),
{
    match v {
        Some(x) => push_head(out, 0, x as u64),
        None => {
            out.push(0xf6);
            assert(final(out)@ =~= old(out)@ + cbor_null());
        },
    }
}

/// Write the CBOR encoding of threshold metadata with the given fields.
pub fn write_metadata(threshold: Option<u16>, limit: Option<u16>) -> (r: Vec<u8>)
    ensures
        r@ == metadata_layout(threshold, limit),
{
    let mut out: Vec<u8> = Vec::new();
    out.push(0xa2);
    let kt = key_threshold_bytes();
    push_all(&mut out, &kt);
    push_opt_u16(&mut out, threshold);
    let kl = key_limit_bytes();
    push_all(&mut out, &kl);
    push_opt_u16(&mut out, limit);
    assert(out@ =~= metadata_layout(threshold, limit));
    out
}

/// Write the CBOR encoding of cipher parameters with the given fields.
pub fn write_cipher(code: u64, nonce: &[u8]) -> (r: Vec<u8>)
    ensures
        r@ == cipher_layout(code, nonce@),
{
    let mut out: Vec<u8> = Vec::new();
    out.push(0xa2);
    let kc = key_cipher_codec_bytes();
    push_all(&mut out, &kc);
    push_head(&mut out, 0, code);
    let kn = key_nonce_bytes();
    push_all(&mut out, &kn);
    push_head(&mut out, 4, nonce.len() as u64);
    let ghost start = out@;
    let mut i: usize = 0;
    while i < nonce.len()
        invariant
            i <= nonce@.len(),
            out@ == start + uint_items(nonce@.take(i as int)),
        decreases nonce@.len() - i,
    {
        push_head(&mut out, 0, nonce[i] as u64);
        proof {
            let t = nonce@.take(i + 1);
            assert(t.drop_last() =~= nonce@.take(i as int));
            assert(out@ =~= start + uint_items(t));
        }
        i = i + 1;
    }
    proof {
        assert(nonce@.take(i as int) =~= nonce@);
        assert(out@ =~= cipher_layout(code, nonce@));
    }
    out
}

/// The index of the first head at or after `pos` that is not a tag.
fn read_untag(b: &[u8], pos: usize) -> (r: usize)
    requires
        pos <= b@.len(),
    ensures
        r == untag(b@, pos as int),
        r <= b@.len(),
{
    let mut p = pos;
    loop
        invariant
            p <= b@.len(),
            untag(b@, p as int) == untag(b@, pos as int),
        decreases b@.len() - p,
    {
        match read_head(b, p) {
            Some((major, _, next)) => {
                if major == 6 && p < next && next <= b.len() {
                    p = next;
                } else {
                    return p;
                }
            },
            None => return p,
        }
    }
}

/// The index after `n` well-formed data items from index `pos`.
fn read_skip(b: &[u8], pos: usize, n: usize) -> (r: Option<usize>)
    requires
        pos <= b@.len(),
    ensures
        match skip_items(b@, pos as int, n as nat) {
            Some(p) => r matches Some(q) && q == p && q <= b@.len(),
            None => r is None,
        },
    decreases b@.len() - pos, 1int,
{
    let mut p = pos;
    let mut k = n;
    loop
        invariant
            pos <= p <= b@.len(),
            skip_items(b@, p as int, k as nat) == skip_items(b@, pos as int, n as nat),
        decreases b@.len() - p,
    {
        if k == 0 {
            return Some(p);
        }
        if k > b.len() - p {
            return None;
        }
        let ib = b[p];
        if ib == 0x5f || ib == 0x7f || ib == 0x9f || ib == 0xbf {
            let major = ib / 32;
            let end = if major == 2 || major == 3 {
                read_chunks(b, p + 1, major)
            } else {
                read_skip_open(b, p + 1, if major == 4 {
                    1
                } else {
                    2
                })
            };
            match end {
                Some(p2) => {
                    if p2 <= p {
                        return None;
                    }
                    p = p2;
                    k = k - 1;
                },
                None => return None,
            }
        } else {
            let (major, v, next) = match read_head(b, p) {
                Some(h) => h,
                None => return None,
            };
            if next <= p || next > b.len() {
                return None;
            }
            let room = b.len() - next;
            if major == 2 || major == 3 {
                if v > room as u64 {
                    return None;
                }
                p = next + v as usize;
                k = k - 1;
            } else if major == 4 {
                if k - 1 > room || v > (room - (k - 1)) as u64 {
                    proof {
                        let m = (k - 1 + v) as nat;
                        assert(m > b@.len() - next && m > 0);
                        assert(skip_items(b@, next as int, m) is None);
                    }
                    return None;
                }
                k = k - 1 + v as usize;
                p = next;
            } else if major == 5 {
                if k - 1 > room || v > ((room - (k - 1)) / 2) as u64 {
                    proof {
                        let m = (k - 1 + 2 * v) as nat;
                        assert(m > b@.len() - next && m > 0);
                        assert(skip_items(b@, next as int, m) is None);
                    }
                    return None;
                }
                k = k - 1 + 2 * (v as usize);
                p = next;
            } else if major == 6 {
                p = next;
            } else {
                p = next;
                k = k - 1;
            }
        }
    }
}

/// The index after the chunks of major type `major` from `pos` and their
/// break.
fn read_chunks(b: &[u8], pos: usize, major: u8) -> (r: Option<usize>)
    requires
        pos <= b@.len(),
    ensures
        match skip_chunks(b@, pos as int, major as nat) {
            Some(p) => r matches Some(q) && q == p && q <= b@.len(),
            None => r is None,
        },
{
    let mut p = pos;
    loop
        invariant
            p <= b@.len(),
            skip_chunks(b@, p as int, major as nat) == skip_chunks(b@, pos as int, major as nat),
        decreases b@.len() - p,
    {
        if p >= b.len() {
            return None;
        }
        if b[p] == 0xff {
            return Some(p + 1);
        }
        match read_head(b, p) {
            Some((m, len, next)) => {
                if m == major && p < next && len <= (b.len() - next) as u64 {
                    p = next + len as usize;
                } else {
                    return None;
                }
            },
            None => return None,
        }
    }
}

/// The index after the groups of `per` items from `pos` and their break.
fn read_skip_open(b: &[u8], pos: usize, per: usize) -> (r: Option<usize>)
    requires
        pos <= b@.len(),
    ensures
        match skip_open(b@, pos as int, per as nat) {
            Some(p) => r matches Some(q) && q == p && q <= b@.len(),
            None => r is None,
        },
    decreases b@.len() - pos, 2int,
{
    let mut p = pos;
    loop
        invariant
            pos <= p <= b@.len(),
            skip_open(b@, p as int, per as nat) == skip_open(b@, pos as int, per as nat),
        decreases b@.len() - p,
    {
        if p >= b.len() {
            return None;
        }
        if b[p] == 0xff {
            return Some(p + 1);
        }
        match read_skip(b, p, per) {
            Some(p2) => {
                if p2 <= p {
                    return None;
                }
                p = p2;
            },
            None => return None,
        }
    }
}

/// A map key at index `pos`: the indices of its bytes and the index after it.
fn read_key(b: &[u8], pos: usize) -> (r: Option<(usize, usize)>)
    requires
        pos <= b@.len(),
    ensures
        match key_item(b@, pos as int) {
            Some((k, next)) => r matches Some((s, e)) && s <= e == next <= b@.len()
                && b@.subrange(s as int, e as int) == k,
            None => r is None,
        },
{
    let p = read_untag(b, pos);
    match read_head(b, p) {
        Some((major, len, next)) => {
            if (major == 2 || major == 3) && len <= 4096 && len <= (b.len() - next) as u64 {
                Some((next, next + len as usize))
            } else {
                None
            }
        },
        None => None,
    }
}

/// Whether the bytes of `b` from `s` to `e` are `key`.
fn bytes_are(b: &[u8], s: usize, e: usize, key: &[u8]) -> (r: bool)
    requires
        s <= e <= b@.len(),
    ensures
        r == (b@.subrange(s as int, e as int) == key@),
{
    if e - s != key.len() {
        return false;
    }
    let mut i: usize = 0;
    while i < key.len()
        invariant
            e - s == key@.len(),
            s <= e <= b@.len(),
            b.len() == b@.len(),
            i <= key@.len(),
            forall|j: int| 0 <= j < i ==> b@[s + j] == key@[j],
        decreases key@.len() - i,
    {
        if b[s + i] != key[i] {
            assert(b@.subrange(s as int, e as int)[i as int] != key@[i as int]);
            return false;
        }
        i = i + 1;
    }
    assert(b@.subrange(s as int, e as int) =~= key@);
    true
}

/// The index of the first head at or after `pos` that is not a tag other
/// than the bignum tags.
fn read_untag_int(b: &[u8], pos: usize) -> (r: usize)
    requires
        pos <= b@.len(),
    ensures
        r == untag_int(b@, pos as int),
        r <= b@.len(),
{
    let mut p = pos;
    loop
        invariant
            p <= b@.len(),
            untag_int(b@, p as int) == untag_int(b@, pos as int),
        decreases b@.len() - p,
    {
        match read_head(b, p) {
            Some((major, v, next)) => {
                if major == 6 && v != 2 && v != 3 && p < next && next <= b.len() {
                    p = next;
                } else {
                    return p;
                }
            },
            None => return p,
        }
    }
}

/// A prefix of big-endian bytes stands for no more than the whole.
proof fn lemma_be_value_prefix(x: Seq<u8>, j: int)
    requires
        0 <= j <= x.len(),
    ensures
        be_value(x.subrange(0, j)) <= be_value(x),
    decreases x.len(),
{
    if j < x.len() {
        lemma_be_value_prefix(x.drop_last(), j);
        assert(x.drop_last().subrange(0, j) =~= x.subrange(0, j));
    } else {
        assert(x.subrange(0, j) =~= x);
    }
}

/// The big-endian value of the bytes of `b` from `s` to `e`, where it is
/// below 2^128.
fn be_value_below_bound(b: &[u8], s: usize, e: usize) -> (r: Option<u128>)
    requires
        s <= e <= b@.len(),
    ensures
        be_value(b@.subrange(s as int, e as int)) < bignum_bound() ==> r == Some(
            be_value(b@.subrange(s as int, e as int)) as u128,
        ),
        be_value(b@.subrange(s as int, e as int)) >= bignum_bound() ==> r is None,
{
    let mut v: u128 = 0;
    let mut i = s;
    assert(b@.subrange(s as int, s as int) =~= Seq::<u8>::empty());
    while i < e
        invariant
            s <= i <= e <= b@.len(),
            v == be_value(b@.subrange(s as int, i as int)),
            v < bignum_bound(),
        decreases e - i,
    {
        let byte = b[i];
        let ghost x = b@.subrange(s as int, i + 1);
        proof {
            assert(x.drop_last() =~= b@.subrange(s as int, i as int));
            assert(x.last() == byte);
            let whole = b@.subrange(s as int, e as int);
            assert(whole.subrange(0, i + 1 - s) =~= x);
            lemma_be_value_prefix(whole, i + 1 - s);
        }
        if v >= 0x100_0000_0000_0000_0000_0000_0000_0000 {
            return None;
        }
        v = v * 256 + byte as u128;
        i = i + 1;
    }
    Some(v)
}

/// An unsigned integer at index `pos` (below 2^128), and the index after it.
fn read_uint(b: &[u8], pos: usize) -> (r: Option<(u128, usize)>)
    requires
        pos <= b@.len(),
    ensures
        match uint_item(b@, pos as int) {
            Some((v, next)) => r matches Some((v2, n2)) && v2 == v && n2 == next && n2
                <= b@.len(),
            None => r is None,
        },
{
    let p = read_untag_int(b, pos);
    match read_head(b, p) {
        Some((major, v, next)) => {
            if major == 0 {
                Some((v as u128, next))
            } else if major == 6 && v == 2 {
                if next < b.len() && b[next] == 0x5f {
                    match read_byte_chunks(b, next + 1) {
                        Some((bytes, end)) => {
                            let n = bytes.len();
                            match be_value_below_bound(bytes.as_slice(), 0, n) {
                                Some(x) => {
                                    proof {
                                        assert(bytes@.subrange(0, n as int) =~= bytes@);
                                    }
                                    Some((x, end))
                                },
                                None => {
                                    proof {
                                        assert(bytes@.subrange(0, n as int) =~= bytes@);
                                    }
                                    None
                                },
                            }
                        },
                        None => None,
                    }
                } else {
                    match read_head(b, next) {
                        Some((m2, n, start)) => {
                            if m2 == 2 && n <= (b.len() - start) as u64 {
                                let end = start + n as usize;
                                match be_value_below_bound(b, start, end) {
                                    Some(x) => Some((x, end)),
                                    None => None,
                                }
                            } else {
                                None
                            }
                        },
                        None => None,
                    }
                }
            } else {
                None
            }
        },
        None => None,
    }
}

/// An optional `u16` at index `pos`, and the index after it.
fn read_opt_u16(b: &[u8], pos: usize) -> (r: Option<(Option<u16>, usize)>)
    requires
        pos <= b@.len(),
    ensures
        match opt_u16_item(b@, pos as int) {
            Some((v, next)) => r matches Some((v2, n2)) && v2 == v && n2 == next && n2
                <= b@.len(),
            None => r is None,
        },
{
    match read_head(b, pos) {
        Some((major, v, next)) => {
            if major == 7 && (v == 22 || v == 23) && next - pos <= 2 {
                return Some((None, next));
            }
        },
        None => return None,
    }
    match read_uint(b, pos) {
        Some((x, next)) => if x < 0x1_0000 {
            Some((Some(x as u16), next))
        } else {
            None
        },
        None => None,
    }
}

/// Unsigned integers below 256 from `pos` up to a break, and the index
/// after the break.
fn read_items_open(b: &[u8], pos: usize) -> (r: Option<(Vec<u8>, usize)>)
    requires
        pos <= b@.len(),
    ensures
        match items_open(b@, pos as int, Seq::empty()) {
            Some((v, next)) => r matches Some((v2, n2)) && v2@ == v && n2 == next && n2
                <= b@.len(),
            None => r is None,
        },
{
    let mut out: Vec<u8> = Vec::new();
    let mut p = pos;
    loop
        invariant
            p <= b@.len(),
            items_open(b@, p as int, out@) == items_open(b@, pos as int, Seq::empty()),
        decreases b@.len() - p,
    {
        if p >= b.len() {
            return None;
        }
        if b[p] == 0xff {
            return Some((out, p + 1));
        }
        match read_uint(b, p) {
            Some((v, next)) => {
                if v < 0x100 && p < next {
                    out.push(v as u8);
                    p = next;
                } else {
                    return None;
                }
            },
            None => return None,
        }
    }
}

/// The bytes of the byte string chunks from `pos` up to a break, and the
/// index after the break.
fn read_byte_chunks(b: &[u8], pos: usize) -> (r: Option<(Vec<u8>, usize)>)
    requires
        pos <= b@.len(),
    ensures
        match byte_chunks(b@, pos as int, Seq::empty()) {
            Some((v, next)) => r matches Some((v2, n2)) && v2@ == v && n2 == next && n2
                <= b@.len(),
            None => r is None,
        },
{
    let mut out: Vec<u8> = Vec::new();
    let mut p = pos;
    loop
        invariant
            p <= b@.len(),
            byte_chunks(b@, p as int, out@) == byte_chunks(b@, pos as int, Seq::empty()),
        decreases b@.len() - p,
    {
        if p >= b.len() {
            return None;
        }
        if b[p] == 0xff {
            return Some((out, p + 1));
        }
        let (m, len, next) = match read_head(b, p) {
            Some(h) => h,
            None => return None,
        };
        if m != 2 || next <= p || len > (b.len() - next) as u64 {
            return None;
        }
        let end = next + len as usize;
        let ghost before = out@;
        let mut i = next;
        while i < end
            invariant
                next <= i <= end <= b@.len(),
                out@ == before + b@.subrange(next as int, i as int),
            decreases end - i,
        {
            out.push(b[i]);
            proof {
                assert(b@.subrange(next as int, i + 1) =~= b@.subrange(next as int, i as int).push(
                    b@[i as int],
                ));
            }
            i = i + 1;
        }
        p = end;
    }
}

/// A byte sequence at index `pos` (an array of bytes or a byte string), and
/// the index after it.
fn read_bytes_item(b: &[u8], pos: usize) -> (r: Option<(Vec<u8>, usize)>)
    requires
        pos <= b@.len(),
    ensures
        match bytes_item(b@, pos as int) {
            Some((v, next)) => r matches Some((v2, n2)) && v2@ == v && n2 == next && n2
                <= b@.len(),
            None => r is None,
        },
{
    let p = read_untag(b, pos);
    if p < b.len() && b[p] == 0x9f {
        return read_items_open(b, p + 1);
    }
    if p < b.len() && b[p] == 0x5f {
        return read_byte_chunks(b, p + 1);
    }
    let (major, n, next) = match read_head(b, p) {
        Some(h) => h,
        None => return None,
    };
    let mut out: Vec<u8> = Vec::new();
    if major == 2 {
        if n > (b.len() - next) as u64 {
            return None;
        }
        let end = next + n as usize;
        let mut i = next;
        while i < end
            invariant
                next <= i <= end <= b@.len(),
                out@ == b@.subrange(next as int, i as int),
            decreases end - i,
        {
            out.push(b[i]);
            proof {
                assert(b@.subrange(next as int, i + 1) =~= b@.subrange(next as int, i as int).push(
                    b@[i as int],
                ));
            }
            i = i + 1;
        }
        return Some((out, end));
    }
    if major != 4 {
        return None;
    }
    let mut q = next;
    let mut i: u64 = 0;
    while i < n
        invariant
            i <= n,
            q <= b@.len(),
            bytes_item(b@, pos as int) == items_at(b@, next as int, n as nat),
            items_at(b@, next as int, i as nat) == Some((out@, q as int)),
        decreases n - i,
    {
        match read_uint(b, q) {
            Some((v, after)) => {
                if v >= 0x100 {
                    proof {
                        lemma_items_none(b@, next as int, (i + 1) as nat, n as nat);
                    }
                    return None;
                }
                out.push(v as u8);
                q = after;
            },
            None => {
                proof {
                    lemma_items_none(b@, next as int, (i + 1) as nat, n as nat);
                }
                return None;
            },
        }
        i = i + 1;
    }
    Some((out, q))
}

/// One entry of a threshold metadata map at index `q`.
fn meta_step(
    b: &[u8],
    q: usize,
    kt: &[u8; 9],
    kl: &[u8; 5],
    t: Option<Option<u16>>,
    l: Option<Option<u16>>,
) -> (r: Option<(Option<Option<u16>>, Option<Option<u16>>, usize)>)
    requires
        q <= b@.len(),
        kt@ == text_threshold(),
        kl@ == text_limit(),
    ensures
        match meta_entry(b@, q as int, t, l) {
            Some((t2, l2, q2)) => r matches Some((t3, l3, q3)) && t3 == t2 && l3 == l2 && q3
                == q2 && q3 <= b@.len(),
            None => r is None,
        },
{
    let (s, e) = match read_key(b, q) {
        Some(x) => x,
        None => return None,
    };
    let ghost k = b@.subrange(s as int, e as int);
    assert(key_item(b@, q as int) == Some((k, e as int)));
    if bytes_are(b, s, e, kt) {
        if t.is_some() {
            return None;
        }
        match read_opt_u16(b, e) {
            Some((v, after)) => Some((Some(v), l, after)),
            None => None,
        }
    } else if bytes_are(b, s, e, kl) {
        if l.is_some() {
            return None;
        }
        match read_opt_u16(b, e) {
            Some((v, after)) => Some((t, Some(v), after)),
            None => None,
        }
    } else {
        match read_skip(b, e, 1) {
            Some(after) => Some((t, l, after)),
            None => None,
        }
    }
}

/// One entry of a cipher parameters map at index `q`.
fn cipher_step(
    b: &[u8],
    q: usize,
    kc: &[u8; 12],
    kn: &[u8; 5],
    c: Option<u64>,
    nc: Option<Vec<u8>>,
) -> (r: Option<(Option<u64>, Option<Vec<u8>>, usize)>)
    requires
        q <= b@.len(),
        kc@ == text_cipher_codec(),
        kn@ == text_nonce(),
    ensures
        match cipher_entry(b@, q as int, c, opt_bytes(nc)) {
            Some((c2, nc2, q2)) => r matches Some((c3, nc3, q3)) && c3 == c2 && opt_bytes(nc3)
                == nc2 && q3 == q2 && q3 <= b@.len(),
            None => r is None,
        },
{
    let (s, e) = match read_key(b, q) {
        Some(x) => x,
        None => return None,
    };
    let ghost k = b@.subrange(s as int, e as int);
    assert(key_item(b@, q as int) == Some((k, e as int)));
    if bytes_are(b, s, e, kc) {
        if c.is_some() {
            return None;
        }
        match read_uint(b, e) {
            Some((v, after)) => if v < 0x1_0000_0000_0000_0000 {
                Some((Some(v as u64), nc, after))
            } else {
                None
            },
            None => None,
        }
    } else if bytes_are(b, s, e, kn) {
        if nc.is_some() {
            return None;
        }
        match read_bytes_item(b, e) {
            Some((v, after)) => Some((c, Some(v), after)),
            None => None,
        }
    } else {
        match read_skip(b, e, 1) {
            Some(after) => Some((c, nc, after)),
            None => None,
        }
    }
}

/// The bytes of an optional byte vector.
pub open spec fn opt_bytes(v: Option<Vec<u8>>) -> Option<Seq<u8>> {
    match v {
        Some(x) => Some(x@),
        None => None,
    }
}

/// Read the fields of threshold metadata from `b`.
pub fn read_metadata(b: &[u8]) -> (r: Option<(Option<u16>, Option<u16>)>)
    ensures
        r == parse_metadata(b@),
{
    let p = read_untag(b, 0);
    let kt = text_threshold_bytes();
    let kl = text_limit_bytes();
    if p < b.len() && b[p] == 0xbf {
        let mut t: Option<Option<u16>> = None;
        let mut l: Option<Option<u16>> = None;
        let mut q = p + 1;
        loop
            invariant
                q <= b@.len(),
                kt@ == text_threshold(),
                kl@ == text_limit(),
                parse_metadata(b@) == finish_metadata(meta_open(b@, p + 1, None, None)),
                meta_open(b@, q as int, t, l) == meta_open(b@, p + 1, None, None),
            decreases b@.len() - q,
        {
            if q >= b.len() {
                return None;
            }
            if b[q] == 0xff {
                let t2 = match t {
                    Some(x) => x,
                    None => None,
                };
                let l2 = match l {
                    Some(x) => x,
                    None => None,
                };
                return Some((t2, l2));
            }
            match meta_step(b, q, &kt, &kl, t, l) {
                Some((t2, l2, q2)) => {
                    if q2 <= q {
                        return None;
                    }
                    t = t2;
                    l = l2;
                    q = q2;
                },
                None => return None,
            }
        }
    }
    let (major, n, next) = match read_head(b, p) {
        Some(h) => h,
        None => return None,
    };
    if major != 5 {
        return None;
    }
    assert(untag(b@, 0) == p as int);
    assert(parse_metadata(b@) == finish_metadata(meta_entries(b@, next as int, n as nat, None, None)));
    let mut t: Option<Option<u16>> = None;
    let mut l: Option<Option<u16>> = None;
    let mut q = next;
    let mut i: u64 = 0;
    while i < n
        invariant
            i <= n,
            q <= b@.len(),
            kt@ == text_threshold(),
            kl@ == text_limit(),
            parse_metadata(b@) == finish_metadata(
                meta_entries(b@, next as int, n as nat, None, None),
            ),
            meta_entries(b@, q as int, (n - i) as nat, t, l) == meta_entries(
                b@,
                next as int,
                n as nat,
                None,
                None,
            ),
        decreases n - i,
    {
        match meta_step(b, q, &kt, &kl, t, l) {
            Some((t2, l2, q2)) => {
                t = t2;
                l = l2;
                q = q2;
            },
            None => return None,
        }
        i = i + 1;
    }
    let t2 = match t {
        Some(x) => x,
        None => None,
    };
    let l2 = match l {
        Some(x) => x,
        None => None,
    };
    Some((t2, l2))
}

/// Read the fields of cipher parameters from `b`.
pub fn read_cipher(b: &[u8]) -> (r: Option<(u64, Vec<u8>)>)
    ensures
        match parse_cipher(b@) {
            Some((code, nonce)) => r matches Some((c2, n2)) && c2 == code && n2@ == nonce,
            None => r is None,
        },
{
    let p = read_untag(b, 0);
    let kc = text_cipher_codec_bytes();
    let kn = text_nonce_bytes();
    if p < b.len() && b[p] == 0xbf {
        let mut c: Option<u64> = None;
        let mut nc: Option<Vec<u8>> = None;
        let mut q = p + 1;
        loop
            invariant
                q <= b@.len(),
                kc@ == text_cipher_codec(),
                kn@ == text_nonce(),
                parse_cipher(b@) == finish_cipher(cipher_open(b@, p + 1, None, None)),
                cipher_open(b@, q as int, c, opt_bytes(nc)) == cipher_open(b@, p + 1, None, None),
            decreases b@.len() - q,
        {
            if q >= b.len() {
                return None;
            }
            if b[q] == 0xff {
                return match (c, nc) {
                    (Some(code), Some(nonce)) => Some((code, nonce)),
                    _ => None,
                };
            }
            match cipher_step(b, q, &kc, &kn, c, nc) {
                Some((c2, nc2, q2)) => {
                    if q2 <= q {
                        return None;
                    }
                    c = c2;
                    nc = nc2;
                    q = q2;
                },
                None => return None,
            }
        }
    }
    let (major, n, next) = match read_head(b, p) {
        Some(h) => h,
        None => return None,
    };
    if major != 5 {
        return None;
    }
    assert(untag(b@, 0) == p as int);
    assert(parse_cipher(b@) == finish_cipher(cipher_entries(b@, next as int, n as nat, None, None)));
    let mut c: Option<u64> = None;
    let mut nc: Option<Vec<u8>> = None;
    let mut q = next;
    let mut i: u64 = 0;
    while i < n
        invariant
            i <= n,
            q <= b@.len(),
            kc@ == text_cipher_codec(),
            kn@ == text_nonce(),
            parse_cipher(b@) == finish_cipher(
                cipher_entries(b@, next as int, n as nat, None, None),
            ),
            cipher_entries(b@, q as int, (n - i) as nat, c, opt_bytes(nc)) == cipher_entries(
                b@,
                next as int,
                n as nat,
                None,
                None,
            ),
        decreases n - i,
    {
        match cipher_step(b, q, &kc, &kn, c, nc) {
            Some((c2, nc2, q2)) => {
                c = c2;
                nc = nc2;
                q = q2;
            },
            None => return None,
        }
        i = i + 1;
    }
    match (c, nc) {
        (Some(code), Some(nonce)) => Some((code, nonce)),
        _ => None,
    }
}

fn text_threshold_bytes() -> (r: [u8; 9])
    ensures
        r@ == text_threshold(),
{
    let r: [u8; 9] = [0x74, 0x68, 0x72, 0x65, 0x73, 0x68, 0x6f, 0x6c, 0x64];
    assert(r@ =~= text_threshold());
    r
}

fn text_limit_bytes() -> (r: [u8; 5])
    ensures
        r@ == text_limit(),
{
    let r: [u8; 5] = [0x6c, 0x69, 0x6d, 0x69, 0x74];
    assert(r@ =~= text_limit());
    r
}

fn text_cipher_codec_bytes() -> (r: [u8; 12])
    ensures
        r@ == text_cipher_codec(),
{
    let r: [u8; 12] = [0x63, 0x69, 0x70, 0x68, 0x65, 0x72, 0x5f, 0x63, 0x6f, 0x64, 0x65, 0x63];
    assert(r@ =~= text_cipher_codec());
    r
}

fn text_nonce_bytes() -> (r: [u8; 5])
    ensures
        r@ == text_nonce(),
{
    let r: [u8; 5] = [0x6e, 0x6f, 0x6e, 0x63, 0x65];
    assert(r@ =~= text_nonce());
    r
}

} // verus!
