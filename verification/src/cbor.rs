//! The CBOR items that the threshold metadata blobs are made of: data item
//! heads (RFC 8949 §3) in their shortest form, and reading them back.

use vstd::prelude::*;

verus! {

/// The `n` low-order bytes of `v`, most significant first.
pub open spec fn be_bytes(v: nat, n: nat) -> Seq<u8>
    decreases n,
{
    if n == 0 {
        Seq::empty()
    } else {
        be_bytes(v / 256, (n - 1) as nat).push((v % 256) as u8)
    }
}

/// The number that the big-endian bytes `s` stand for.
pub open spec fn be_value(s: Seq<u8>) -> nat
    decreases s.len(),
{
    if s.len() == 0 {
        0
    } else {
        be_value(s.drop_last()) * 256 + s.last() as nat
    }
}

/// The number of argument bytes that follow an initial byte whose
/// additional information is `ai` (24 to 27).
pub open spec fn arg_len(ai: nat) -> nat {
    if ai == 24 {
        1
    } else if ai == 25 {
        2
    } else if ai == 26 {
        4
    } else {
        8
    }
}

/// The head of a data item of major type `major` with argument `v`, in its
/// shortest form.
pub open spec fn cbor_head(major: nat, v: nat) -> Seq<u8> {
    let m = major * 32;
    if v < 24 {
        seq![(m + v) as u8]
    } else if v < 0x100 {
        seq![(m + 24) as u8] + be_bytes(v, 1)
    } else if v < 0x1_0000 {
        seq![(m + 25) as u8] + be_bytes(v, 2)
    } else if v < 0x1_0000_0000 {
        seq![(m + 26) as u8] + be_bytes(v, 4)
    } else {
        seq![(m + 27) as u8] + be_bytes(v, 8)
    }
}

/// The head found at index `pos` of `b`, in any of its forms: its major
/// type, its argument and the index after it.
pub open spec fn head_at(b: Seq<u8>, pos: int) -> Option<(nat, nat, int)> {
    if 0 <= pos < b.len() {
        let ib = b[pos];
        let major = (ib / 32) as nat;
        let ai = (ib % 32) as nat;
        if ai < 24 {
            Some((major, ai, pos + 1))
        } else if ai <= 27 && pos + 1 + arg_len(ai) <= b.len() {
            Some((major, be_value(b.subrange(pos + 1, pos + 1 + arg_len(ai))), pos + 1 + arg_len(ai)))
        } else {
            None
        }
    } else {
        None
    }
}

/// `be_bytes` gives as many bytes as asked for.
pub proof fn lemma_be_bytes_len(v: nat, n: nat)
    ensures
        be_bytes(v, n).len() == n,
    decreases n,
{
    if n > 0 {
        lemma_be_bytes_len(v / 256, (n - 1) as nat);
    }
}

/// A head takes one to nine bytes, and at most three for an argument
/// below 2^16.
pub proof fn lemma_head_len(major: nat, v: nat)
    ensures
        1 <= cbor_head(major, v).len() <= 9,
        v < 0x1_0000 ==> cbor_head(major, v).len() <= 3,
{
    lemma_be_bytes_len(v, 1);
    lemma_be_bytes_len(v, 2);
    lemma_be_bytes_len(v, 4);
    lemma_be_bytes_len(v, 8);
}

/// The CBOR simple value `null`.
pub open spec fn cbor_null() -> Seq<u8> {
    seq![0xf6u8]
}

proof fn lemma_be_roundtrip(v: nat, n: nat)
    requires
        v < pow256(n),
    ensures
        be_bytes(v, n).len() == n,
        be_value(be_bytes(v, n)) == v,
    decreases n,
{
    if n > 0 {
        assert(v / 256 < pow256((n - 1) as nat)) by (nonlinear_arith)
            requires
                v < 256 * pow256((n - 1) as nat),
        ;
        lemma_be_roundtrip(v / 256, (n - 1) as nat);
        let s = be_bytes(v, n);
        assert(s.drop_last() =~= be_bytes(v / 256, (n - 1) as nat));
        assert(v == (v / 256) * 256 + v % 256) by (nonlinear_arith);
    }
}

/// `256^n`.
pub open spec fn pow256(n: nat) -> nat
    decreases n,
{
    if n == 0 {
        1
    } else {
        256 * pow256((n - 1) as nat)
    }
}

proof fn lemma_pow256_values()
    ensures
        pow256(1) == 0x100,
        pow256(2) == 0x1_0000,
        pow256(4) == 0x1_0000_0000,
        pow256(8) == 0x1_0000_0000_0000_0000,
{
    reveal_with_fuel(pow256, 9);
}

/// The head of a data item is read back from its shortest form, wherever it
/// stands.
pub proof fn lemma_head_at(pre: Seq<u8>, major: nat, v: nat, rest: Seq<u8>)
    requires
        major < 8,
        v < 0x1_0000_0000_0000_0000,
    ensures
        head_at(pre + cbor_head(major, v) + rest, pre.len() as int) == Some(
            (major, v, (pre.len() + cbor_head(major, v).len()) as int),
        ),
{
    lemma_pow256_values();
    let h = cbor_head(major, v);
    let b = pre + h + rest;
    let pos = pre.len() as int;
    assert(b[pos] == h[0]);
    let m = major * 32;
    if v < 24 {
        assert(h[0] == (m + v) as u8);
        assert((m + v) / 32 == major && (m + v) % 32 == v) by (nonlinear_arith)
            requires
                m == major * 32,
                v < 24,
        ;
    } else {
        let (ai, n): (nat, nat) = if v < 0x100 {
            (24, 1)
        } else if v < 0x1_0000 {
            (25, 2)
        } else if v < 0x1_0000_0000 {
            (26, 4)
        } else {
            (27, 8)
        };
        assert(h =~= seq![(m + ai) as u8] + be_bytes(v, n));
        assert((m + ai) / 32 == major && (m + ai) % 32 == ai) by (nonlinear_arith)
            requires
                m == major * 32,
                24 <= ai <= 27,
        ;
        assert(arg_len(ai) == n);
        lemma_be_roundtrip(v, n);
        assert(b.subrange(pos + 1, pos + 1 + n) =~= be_bytes(v, n));
    }
}

/// Append the bytes of `src` to `out`.
pub fn push_all(out: &mut Vec<u8>, src: &[u8])
    ensures
        final(out)@ == old(out)@ + src@,
{
    let mut i: usize = 0;
    while i < src.len()
        invariant
            i <= src@.len(),
            out@ == old(out)@ + src@.take(i as int),
        decreases src@.len() - i,
    {
        out.push(src[i]);
        proof {
            assert(src@.take(i + 1) =~= src@.take(i as int).push(src@[i as int]));
        }
        i = i + 1;
    }
    proof {
        assert(src@.take(i as int) =~= src@);
    }
}

/// Append the `n` low-order bytes of `v`, most significant first.
fn push_be(out: &mut Vec<u8>, v: u64, n: usize)
    requires
        n <= 8,
    ensures
        final(out)@ == old(out)@ + be_bytes(v as nat, n as nat),
    decreases n,
{
    if n > 0 {
        push_be(out, v / 256, n - 1);
        out.push((v % 256) as u8);
    }
}

/// Append the shortest head of a data item of major type `major` with
/// argument `v`.
pub fn push_head(out: &mut Vec<u8>, major: u8, v: u64)
    requires
        major < 8,
    ensures
        final(out)@ == old(out)@ + cbor_head(major as nat, v as nat),
{
    let m: u8 = major * 32;
    if v < 24 {
        out.push(m + v as u8);
    } else if v < 0x100 {
        out.push(m + 24);
        push_be(out, v, 1);
    } else if v < 0x1_0000 {
        out.push(m + 25);
        push_be(out, v, 2);
    } else if v < 0x1_0000_0000 {
        out.push(m + 26);
        push_be(out, v, 4);
    } else {
        out.push(m + 27);
        push_be(out, v, 8);
    }
    proof {
        assert(final(out)@ =~= old(out)@ + cbor_head(major as nat, v as nat));
    }
}

/// Read the head at index `pos` of `b`: its major type, its argument and the
/// index after it.
pub fn read_head(b: &[u8], pos: usize) -> (r: Option<(u8, u64, usize)>)
    ensures
        match head_at(b@, pos as int) {
            Some((major, v, next)) => r matches Some((m2, v2, n2)) && m2 == major && v2 == v && n2
                == next,
            None => r is None,
        },
{
    if pos >= b.len() {
        return None;
    }
    let ib = b[pos];
    let major = ib / 32;
    let ai = ib % 32;
    if ai < 24 {
        return Some((major, ai as u64, pos + 1));
    }
    if ai > 27 {
        return None;
    }
    let n: usize = if ai == 24 {
        1
    } else if ai == 25 {
        2
    } else if ai == 26 {
        4
    } else {
        8
    };
    assert(n == arg_len(ai as nat));
    if n > b.len() - pos - 1 {
        return None;
    }
    let mut v: u64 = 0;
    let mut i: usize = 0;
    proof {
        lemma_pow256_values();
    }
    while i < n
        invariant
            n <= 8,
            pos + 1 + n <= b.len(),
            b.len() == b@.len(),
            i <= n,
            v == be_value(b@.subrange(pos + 1, pos + 1 + i)),
            v < pow256(i as nat),
            pow256(8) == 0x1_0000_0000_0000_0000,
        decreases n - i,
    {
        let byte = b[pos + 1 + i];
        proof {
            let s = b@.subrange(pos + 1, pos + 1 + i + 1);
            assert(s.drop_last() =~= b@.subrange(pos + 1, pos + 1 + i));
            assert(s.last() == byte);
            lemma_pow256_mono(i as nat + 1, 8);
            assert(v * 256 + byte < pow256(i as nat + 1)) by (nonlinear_arith)
                requires
                    v < pow256(i as nat),
                    byte < 256,
                    pow256(i as nat + 1) == 256 * pow256(i as nat),
            ;
        }
        v = v * 256 + byte as u64;
        i = i + 1;
    }
    Some((major, v, pos + 1 + n))
}

proof fn lemma_pow256_mono(i: nat, j: nat)
    requires
        i <= j,
    ensures
        pow256(i) <= pow256(j),
    decreases j,
{
    if i < j {
        lemma_pow256_mono(i, (j - 1) as nat);
    }
}

} // verus!
