//! What stamping, reading and converting threshold parameters promise
//! together.

use crate::aead::{chacha20poly1305_open, chacha20poly1305_seal};
use crate::attrid::{attr_code, lemma_attr_codes_are_the_wire_codes, AttrId};
use crate::varint::{
    decode_u8_spec, decode_usize_spec, lemma_decode_small_u8, lemma_decode_usize, uvarint,
};
use crate::views::threshold_meta::{
    attr_bytes, cipher_cbor, cipher_from_cbor, cleared_attrs, decrypt_spec,
    disclosure_mode_of, encrypted_meta_of, full_attrs, lemma_cipher_cbor_roundtrip,
    lemma_metadata_cbor_roundtrip, meta_aad, metadata_cbor, mode_code, mode_of_code,
    sealed_attrs, stamp_result, threshold_params_of, ThresholdDisclosure, ThresholdMetadata,
    CHACHA20_POLY1305_CODE, disclosure_name, encryption_outcome, key_length_message, rng_failure_message,
};
use crate::error::{Error, SharesError};
use vstd::prelude::*;

verus! {

/// The threshold parameters that a read gives back after stamping
/// `threshold` and `limit` in `mode`: the encrypting modes keep them as
/// `u16`.
pub open spec fn stamped_params(mode: ThresholdDisclosure, threshold: usize, limit: usize) -> (
    nat,
    nat,
) {
    match mode {
        ThresholdDisclosure::Full => (threshold as nat, limit as nat),
        ThresholdDisclosure::Partial => ((threshold as u16) as nat, limit as nat),
        ThresholdDisclosure::FullConfidentialial => (
            (threshold as u16) as nat,
            (limit as u16) as nat,
        ),
    }
}

/// A disclosure mode is read back from its code, and its code from the one
/// byte that encodes it.
pub proof fn lemma_disclosure_code_roundtrip(mode: ThresholdDisclosure, rest: Seq<u8>)
    ensures
        mode_of_code(mode_code(mode) as nat) == Some(mode),
        decode_u8_spec(seq![mode_code(mode)] + rest) == Ok::<
            (nat, nat),
            crate::varint::VarintFault,
        >((mode_code(mode) as nat, 1)),
{
    lemma_decode_small_u8(mode_code(mode), rest);
}

/// A Multisig that records no disclosure mode is in the `Full` mode.
pub proof fn lemma_disclosure_defaults_to_full(attrs: Map<u8, Seq<u8>>)
    requires
        !attrs.contains_key(attr_code(AttrId::ThresholdDisclosure)),
    ensures
        disclosure_mode_of(attrs) == Some(ThresholdDisclosure::Full),
{
}

/// Metadata sealed under a 32-byte key and a 12-byte nonce is given back by
/// decryption with the same key and nonce.
pub proof fn lemma_seal_then_decrypt(
    meta: ThresholdMetadata,
    key: Seq<u8>,
    nonce: Seq<u8>,
    encrypted: Seq<u8>,
)
    requires
        key.len() == 32,
        nonce.len() == 12,
        chacha20poly1305_open(key, nonce, encrypted, meta_aad()) == Some(metadata_cbor(meta)),
    ensures
        decrypt_spec(encrypted, CHACHA20_POLY1305_CODE, nonce, key) == Some(meta),
{
    lemma_metadata_cbor_roundtrip(meta);
}

/// The nonce that a sealing used.
proof fn sealed_witness(
    fin: Map<u8, Seq<u8>>,
    base: Map<u8, Seq<u8>>,
    key: Seq<u8>,
    meta: ThresholdMetadata,
    mode: ThresholdDisclosure,
) -> (nonce: Seq<u8>)
    requires
        sealed_attrs(fin, base, key, meta, mode),
    ensures
        nonce.len() == 12,
        key.len() == 32,
        chacha20poly1305_open(
            key,
            nonce,
            chacha20poly1305_seal(key, nonce, metadata_cbor(meta), meta_aad()),
            meta_aad(),
        ) == Some(metadata_cbor(meta)),
        fin == base.insert(
            attr_code(AttrId::EncryptedThresholdMeta),
            chacha20poly1305_seal(key, nonce, metadata_cbor(meta), meta_aad()),
        ).insert(
            attr_code(AttrId::ThresholdMetaCipher),
            cipher_cbor(CHACHA20_POLY1305_CODE, nonce),
        ).insert(attr_code(AttrId::ThresholdDisclosure), seq![mode_code(mode)]),
{
    choose|nonce: Seq<u8>|
        #![trigger cipher_cbor(CHACHA20_POLY1305_CODE, nonce)]
        {
            let ct = chacha20poly1305_seal(key, nonce, metadata_cbor(meta), meta_aad());
            &&& nonce.len() == 12
            &&& key.len() == 32
            &&& chacha20poly1305_open(key, nonce, ct, meta_aad()) == Some(metadata_cbor(meta))
            &&& fin == base.insert(attr_code(AttrId::EncryptedThresholdMeta), ct).insert(
                attr_code(AttrId::ThresholdMetaCipher),
                cipher_cbor(CHACHA20_POLY1305_CODE, nonce),
            ).insert(attr_code(AttrId::ThresholdDisclosure), seq![mode_code(mode)])
        }
}

/// Stamping changes only the five attributes that record the threshold
/// parameters and their disclosure, whether it succeeds or not.
pub proof fn lemma_stamp_keeps_other_attrs(
    old: Map<u8, Seq<u8>>,
    fin: Map<u8, Seq<u8>>,
    mode: ThresholdDisclosure,
    threshold: usize,
    limit: usize,
    key: Option<Seq<u8>>,
    ok: bool,
)
    requires
        stamp_result(old, fin, mode, threshold, limit, key, ok),
    ensures
        cleared_attrs(fin) == cleared_attrs(old),
{
    let base = cleared_attrs(old);
    if ok && mode != ThresholdDisclosure::Full {
        let k = key->Some_0;
        if mode == ThresholdDisclosure::Partial {
            let meta = ThresholdMetadata { threshold: Some(threshold as u16), limit: None };
            let with_limit = base.insert(attr_code(AttrId::Limit), uvarint(limit as nat));
            let nonce = sealed_witness(fin, with_limit, k, meta, mode);
        } else {
            let meta = ThresholdMetadata {
                threshold: Some(threshold as u16),
                limit: Some(limit as u16),
            };
            let nonce = sealed_witness(fin, base, k, meta, mode);
        }
    }
    assert(cleared_attrs(fin) =~= base);
}

/// Reading the threshold parameters after a successful stamping gives back
/// what was stamped (as `u16` where the mode encrypts), with the key that
/// was stamped with, and the disclosure mode reads back as the one stamped.
pub proof fn lemma_stamp_then_read(
    old: Map<u8, Seq<u8>>,
    fin: Map<u8, Seq<u8>>,
    mode: ThresholdDisclosure,
    threshold: usize,
    limit: usize,
    key: Option<Seq<u8>>,
)
    requires
        stamp_result(old, fin, mode, threshold, limit, key, true),
    ensures
        disclosure_mode_of(fin) == Some(mode),
        threshold_params_of(fin, key) == Ok::<(nat, nat), crate::views::threshold_meta::MetaFault>(
            stamped_params(mode, threshold, limit),
        ),
{
    let base = cleared_attrs(old);
    let empty = Seq::<u8>::empty();
    lemma_disclosure_code_roundtrip(mode, empty);
    assert(seq![mode_code(mode)] + empty =~= seq![mode_code(mode)]);
    lemma_decode_usize(limit, empty);
    assert(uvarint(limit as nat) + empty =~= uvarint(limit as nat));
    match mode {
        ThresholdDisclosure::Full => {
            lemma_decode_usize(threshold, empty);
            assert(uvarint(threshold as nat) + empty =~= uvarint(threshold as nat));
            assert(attr_bytes(fin, AttrId::ThresholdDisclosure) == Some(seq![0u8]));
            assert(attr_bytes(fin, AttrId::Threshold) == Some(uvarint(threshold as nat)));
            assert(attr_bytes(fin, AttrId::Limit) == Some(uvarint(limit as nat)));
        },
        ThresholdDisclosure::Partial => {
            let k = key->Some_0;
            let meta = ThresholdMetadata { threshold: Some(threshold as u16), limit: None };
            let with_limit = base.insert(attr_code(AttrId::Limit), uvarint(limit as nat));
            assert(sealed_attrs(fin, with_limit, k, meta, mode));
            let nonce = sealed_witness(fin, with_limit, k, meta, mode);
            let ct = chacha20poly1305_seal(k, nonce, metadata_cbor(meta), meta_aad());
            lemma_cipher_cbor_roundtrip(CHACHA20_POLY1305_CODE, nonce);
            lemma_seal_then_decrypt(meta, k, nonce, ct);
            assert(attr_bytes(fin, AttrId::ThresholdDisclosure) == Some(seq![1u8]));
            assert(attr_bytes(fin, AttrId::Limit) == Some(uvarint(limit as nat)));
            assert(attr_bytes(fin, AttrId::EncryptedThresholdMeta) == Some(ct));
            assert(attr_bytes(fin, AttrId::ThresholdMetaCipher) == Some(
                cipher_cbor(CHACHA20_POLY1305_CODE, nonce),
            ));
            assert(encrypted_meta_of(fin, key) == Ok::<
                ThresholdMetadata,
                crate::views::threshold_meta::MetaFault,
            >(meta));
        },
        ThresholdDisclosure::FullConfidentialial => {
            let k = key->Some_0;
            let meta = ThresholdMetadata {
                threshold: Some(threshold as u16),
                limit: Some(limit as u16),
            };
            assert(sealed_attrs(fin, base, k, meta, mode));
            let nonce = sealed_witness(fin, base, k, meta, mode);
            let ct = chacha20poly1305_seal(k, nonce, metadata_cbor(meta), meta_aad());
            lemma_cipher_cbor_roundtrip(CHACHA20_POLY1305_CODE, nonce);
            lemma_seal_then_decrypt(meta, k, nonce, ct);
            assert(attr_bytes(fin, AttrId::ThresholdDisclosure) == Some(seq![2u8]));
            assert(attr_bytes(fin, AttrId::EncryptedThresholdMeta) == Some(ct));
            assert(attr_bytes(fin, AttrId::ThresholdMetaCipher) == Some(
                cipher_cbor(CHACHA20_POLY1305_CODE, nonce),
            ));
            assert(encrypted_meta_of(fin, key) == Ok::<
                ThresholdMetadata,
                crate::views::threshold_meta::MetaFault,
            >(meta));
        },
    }
}

/// Converting a Multisig between disclosure modes keeps its threshold
/// parameters: where they fit in 16 bits (the encrypting modes store them
/// as `u16`), reading them from the converted attributes with the key they
/// were stamped under gives what reading them before gave, and the
/// converted attributes are in the target mode.
pub proof fn lemma_conversion_keeps_params(
    src: Map<u8, Seq<u8>>,
    fin: Map<u8, Seq<u8>>,
    target: ThresholdDisclosure,
    key: Option<Seq<u8>>,
    current_key: Option<Seq<u8>>,
)
    requires
        threshold_params_of(src, current_key) is Ok,
        stamp_result(
            src,
            fin,
            target,
            threshold_params_of(src, current_key)->Ok_0.0 as usize,
            threshold_params_of(src, current_key)->Ok_0.1 as usize,
            key,
            true,
        ),
    ensures
        disclosure_mode_of(fin) == Some(target),
        ({
            let (t, n) = threshold_params_of(src, current_key)->Ok_0;
            &&& threshold_params_of(fin, key) == Ok::<
                (nat, nat),
                crate::views::threshold_meta::MetaFault,
            >(stamped_params(target, t as usize, n as usize))
            &&& t < 0x10000 && n < 0x10000 ==> threshold_params_of(fin, key) == threshold_params_of(
                src,
                current_key,
            )
        }),
{
    let (t, n) = threshold_params_of(src, current_key)->Ok_0;
    lemma_stamp_then_read(src, fin, target, t as usize, n as usize, key);
}

/// In the `Full` mode the threshold parameters are read from the plaintext
/// attributes alone: any meta key, or none, gives the same result.
pub proof fn lemma_full_read_ignores_key(
    attrs: Map<u8, Seq<u8>>,
    key1: Option<Seq<u8>>,
    key2: Option<Seq<u8>>,
)
    requires
        disclosure_mode_of(attrs) == Some(ThresholdDisclosure::Full),
    ensures
        threshold_params_of(attrs, key1) == threshold_params_of(attrs, key2),
{
}

/// A `Full` stamp leaves nothing of any earlier stamp: stamping `Full`
/// after an earlier stamp (whether it succeeded or not) gives the same
/// attributes as stamping `Full` on the attributes from before it, and both
/// succeed. So `Full` stamping is idempotent.
pub proof fn lemma_full_stamp_forgets_earlier_stamps(
    a0: Map<u8, Seq<u8>>,
    a1: Map<u8, Seq<u8>>,
    mode: ThresholdDisclosure,
    t1: usize,
    n1: usize,
    k1: Option<Seq<u8>>,
    ok1: bool,
    a2: Map<u8, Seq<u8>>,
    b2: Map<u8, Seq<u8>>,
    threshold: usize,
    limit: usize,
    key: Option<Seq<u8>>,
    key2: Option<Seq<u8>>,
    ok2: bool,
    ok3: bool,
)
    requires
        stamp_result(a0, a1, mode, t1, n1, k1, ok1),
        stamp_result(a1, a2, ThresholdDisclosure::Full, threshold, limit, key, ok2),
        stamp_result(a0, b2, ThresholdDisclosure::Full, threshold, limit, key2, ok3),
    ensures
        ok2 && ok3,
        a2 == b2,
{
    lemma_stamp_keeps_other_attrs(a0, a1, mode, t1, n1, k1, ok1);
}

/// In the `Full` mode, whether recorded (attribute 7 holding the code 0)
/// or left out (no attribute 7, as on a share from before the disclosure
/// modes), the threshold `t` is read from attribute 3 and the limit `n`
/// from attribute 4, whatever the meta key.
pub proof fn lemma_full_read_takes_threshold_and_limit(
    attrs: Map<u8, Seq<u8>>,
    key: Option<Seq<u8>>,
    t: nat,
    kt: nat,
    n: nat,
    kn: nat,
)
    requires
        !attrs.contains_key(7u8) || attrs[7u8] == seq![0u8],
        attrs.contains_key(3u8),
        attrs.contains_key(4u8),
        decode_usize_spec(attrs[3u8]) == Ok::<(nat, nat), crate::varint::VarintFault>((t, kt)),
        decode_usize_spec(attrs[4u8]) == Ok::<(nat, nat), crate::varint::VarintFault>((n, kn)),
    ensures
        threshold_params_of(attrs, key) == Ok::<(nat, nat), crate::views::threshold_meta::MetaFault>(
            (t, n),
        ),
{
    lemma_attr_codes_are_the_wire_codes(AttrId::Threshold, AttrId::Limit);
    if attrs.contains_key(7u8) {
        lemma_disclosure_code_roundtrip(ThresholdDisclosure::Full, Seq::empty());
        assert(seq![0u8] + Seq::<u8>::empty() =~= seq![0u8]);
    }
}

/// Recording the `Full` mode explicitly changes no read: the attributes
/// without a disclosure attribute read as they do with the code of `Full`
/// recorded, under any meta key.
pub proof fn lemma_absent_disclosure_reads_as_full(attrs: Map<u8, Seq<u8>>, key: Option<Seq<u8>>)
    ensures
        threshold_params_of(attrs.remove(7u8), key) == threshold_params_of(
            attrs.insert(7u8, seq![0u8]),
            key,
        ),
        disclosure_mode_of(attrs.remove(7u8)) == disclosure_mode_of(attrs.insert(7u8, seq![0u8])),
{
    lemma_attr_codes_are_the_wire_codes(AttrId::Threshold, AttrId::Limit);
    lemma_disclosure_code_roundtrip(ThresholdDisclosure::Full, Seq::empty());
    assert(seq![0u8] + Seq::<u8>::empty() =~= seq![0u8]);
}

/// A `Full` stamp of `threshold` and `limit` always succeeds and writes the
/// wire form: attribute 3 holds the varint of the threshold, attribute 4
/// that of the limit, attribute 7 the code 0 of `Full`; attributes 8 and 9
/// are gone, and every other attribute is as it was.
pub proof fn lemma_full_stamp_wire_form(
    old: Map<u8, Seq<u8>>,
    fin: Map<u8, Seq<u8>>,
    threshold: usize,
    limit: usize,
    key: Option<Seq<u8>>,
    ok: bool,
)
    requires
        stamp_result(old, fin, ThresholdDisclosure::Full, threshold, limit, key, ok),
    ensures
        ok,
        fin.contains_key(3u8) && fin[3u8] == uvarint(threshold as nat),
        fin.contains_key(4u8) && fin[4u8] == uvarint(limit as nat),
        fin.contains_key(7u8) && fin[7u8] == seq![0u8],
        decode_usize_spec(fin[3u8]) == Ok::<(nat, nat), crate::varint::VarintFault>(
            (threshold as nat, uvarint(threshold as nat).len()),
        ),
        decode_usize_spec(fin[4u8]) == Ok::<(nat, nat), crate::varint::VarintFault>(
            (limit as nat, uvarint(limit as nat).len()),
        ),
        !fin.contains_key(8u8),
        !fin.contains_key(9u8),
        forall|c: u8|
            c != 3 && c != 4 && c != 7 && c != 8 && c != 9 ==> (#[trigger] fin.contains_key(c)
                == old.contains_key(c) && (old.contains_key(c) ==> fin[c] == old[c])),
{
    lemma_attr_codes_are_the_wire_codes(AttrId::Threshold, AttrId::Limit);
    let e = Seq::<u8>::empty();
    lemma_decode_usize(threshold, e);
    assert(uvarint(threshold as nat) + e =~= uvarint(threshold as nat));
    lemma_decode_usize(limit, e);
    assert(uvarint(limit as nat) + e =~= uvarint(limit as nat));
}

/// Whether encrypting metadata fails does not depend on the metadata: an
/// error that encrypting one metadata may give, encrypting any other may
/// give too, and under a 32-byte key the only error is a failure of the
/// random number generator, never one made of the values of `t` and `n`.
pub proof fn lemma_encryption_errors_ignore_metadata(
    m1: ThresholdMetadata,
    m2: ThresholdMetadata,
    key: Seq<u8>,
    e: Error,
)
    requires
        encryption_outcome(m1, key, Err(e)),
    ensures
        encryption_outcome(m2, key, Err(e)),
        key.len() == 32 ==> (e matches Error::Shares(SharesError::MetaEncryption(m))
            && rng_failure_message(m@)),
        key.len() != 32 ==> (e matches Error::Shares(SharesError::MetaEncryption(m)) && m@
            == key_length_message(key.len())),
{
}

/// The disclosure modes have the codes of the wire format, `Full` 0,
/// `Partial` 1 and `FullConfidentialial` 2, read back from their codes, and
/// the names `full`, `partial` and `full-confidentialial`.
pub proof fn lemma_disclosure_codes_and_names(mode: ThresholdDisclosure)
    ensures
        mode_code(ThresholdDisclosure::Full) == 0,
        mode_code(ThresholdDisclosure::Partial) == 1,
        mode_code(ThresholdDisclosure::FullConfidentialial) == 2,
        mode_of_code(mode_code(mode) as nat) == Some(mode),
        forall|c: nat| c > 2 ==> #[trigger] mode_of_code(c) is None,
        disclosure_name(ThresholdDisclosure::Full) == seq!['f', 'u', 'l', 'l'],
        disclosure_name(ThresholdDisclosure::Partial) == seq!['p', 'a', 'r', 't', 'i', 'a', 'l'],
        disclosure_name(ThresholdDisclosure::FullConfidentialial) == seq![
            'f', 'u', 'l', 'l', '-', 'c', 'o', 'n', 'f', 'i', 'd', 'e', 'n', 't', 'i', 'a', 'l',
            'i', 'a', 'l',
        ],
{
    reveal_strlit("full");
    reveal_strlit("partial");
    reveal_strlit("full-confidentialial");
    assert(disclosure_name(ThresholdDisclosure::Full) =~= seq!['f', 'u', 'l', 'l']);
    assert(disclosure_name(ThresholdDisclosure::Partial) =~= seq![
        'p', 'a', 'r', 't', 'i', 'a', 'l',
    ]);
    assert(disclosure_name(ThresholdDisclosure::FullConfidentialial) =~= seq![
        'f', 'u', 'l', 'l', '-', 'c', 'o', 'n', 'f', 'i', 'd', 'e', 'n', 't', 'i', 'a', 'l',
        'i', 'a', 'l',
    ]);
}

/// An encrypting stamp of `threshold` and `limit` under `key` that succeeds
/// writes the wire form: attribute 7 holds the mode's code (1 for
/// `Partial`, 2 for `FullConfidentialial`), attribute 3 is gone, attribute 4
/// holds the varint of the limit in `Partial` and is gone otherwise, and
/// attribute 8 decrypts, with the cipher parameters of attribute 9 and the
/// key, to the threshold (and in `FullConfidentialial` the limit) as `u16`.
pub proof fn lemma_encrypting_stamp_wire_form(
    old: Map<u8, Seq<u8>>,
    fin: Map<u8, Seq<u8>>,
    mode: ThresholdDisclosure,
    threshold: usize,
    limit: usize,
    key: Seq<u8>,
)
    requires
        mode != ThresholdDisclosure::Full,
        stamp_result(old, fin, mode, threshold, limit, Some(key), true),
    ensures
        key.len() == 32,
        fin.contains_key(7u8),
        mode == ThresholdDisclosure::Partial ==> fin[7u8] == seq![1u8],
        mode == ThresholdDisclosure::FullConfidentialial ==> fin[7u8] == seq![2u8],
        !fin.contains_key(3u8),
        mode == ThresholdDisclosure::Partial ==> fin.contains_key(4u8) && fin[4u8] == uvarint(
            limit as nat,
        ),
        mode == ThresholdDisclosure::FullConfidentialial ==> !fin.contains_key(4u8),
        fin.contains_key(8u8) && fin.contains_key(9u8),
        ({
            let (code, nonce) = cipher_from_cbor(fin[9u8])->Some_0;
            &&& cipher_from_cbor(fin[9u8]) is Some
            &&& code == 0xa000
            &&& nonce.len() == 12
            &&& decrypt_spec(fin[8u8], code, nonce, key) == Some(
                ThresholdMetadata {
                    threshold: Some(threshold as u16),
                    limit: if mode == ThresholdDisclosure::Partial {
                        None
                    } else {
                        Some(limit as u16)
                    },
                },
            )
        }),
        forall|c: u8|
            c != 3 && c != 4 && c != 7 && c != 8 && c != 9 ==> (#[trigger] fin.contains_key(c)
                == old.contains_key(c) && (old.contains_key(c) ==> fin[c] == old[c])),
{
    lemma_attr_codes_are_the_wire_codes(AttrId::Threshold, AttrId::Limit);
    let base = cleared_attrs(old);
    let meta = ThresholdMetadata {
        threshold: Some(threshold as u16),
        limit: if mode == ThresholdDisclosure::Partial {
            None
        } else {
            Some(limit as u16)
        },
    };
    let prior = if mode == ThresholdDisclosure::Partial {
        base.insert(attr_code(AttrId::Limit), uvarint(limit as nat))
    } else {
        base
    };
    assert(sealed_attrs(fin, prior, key, meta, mode));
    let nonce = sealed_witness(fin, prior, key, meta, mode);
    let ct = chacha20poly1305_seal(key, nonce, metadata_cbor(meta), meta_aad());
    lemma_cipher_cbor_roundtrip(CHACHA20_POLY1305_CODE, nonce);
    lemma_seal_then_decrypt(meta, key, nonce, ct);
    assert(fin[8u8] == ct);
    assert(fin[9u8] == cipher_cbor(CHACHA20_POLY1305_CODE, nonce));
}

} // verus!
