//! Threshold disclosure modes and encrypted threshold metadata.
//!
//! Three disclosure modes control who can read the threshold `t` and the
//! share count `n` of a signature share:
//!
//! - [`ThresholdDisclosure::Full`]: `t` and `n` are plaintext attributes.
//! - [`ThresholdDisclosure::Partial`]: `n` is plaintext, `t` is encrypted.
//! - [`ThresholdDisclosure::FullConfidentialial`]: both are encrypted.
//!
//! Encrypted values are sealed with ChaCha20-Poly1305 under a 32-byte meta
//! key, as the CBOR encoding of a [`ThresholdMetadata`]; the cipher
//! parameters are stored beside them as the CBOR encoding of a
//! [`ThresholdMetaCipher`].

use crate::aead::{chacha20poly1305_open, chacha20poly1305_seal, fill_random, open, seal};
use crate::attrid::{attr_code, AttrId};
use crate::cbor::lemma_head_len;
use crate::error::{AttributesError, Error, SharesError};
use crate::ms::{attr_view, Multisig};
use crate::text::{decimal, decimal_string, join};
use crate::views::ThresholdDisclosureView;
use crate::varint::{
    is_varint_error, varint_error_text,
    decode_u8, decode_u8_spec, decode_usize, decode_usize_spec, encode_u8, encode_usize, uvarint,
};
use crate::views::meta_cbor::{
    cipher_layout, lemma_parse_cipher, lemma_parse_metadata, metadata_layout,
    parse_cipher, parse_metadata, read_cipher, read_metadata, write_cipher, write_metadata,
};
use std::collections::BTreeMap;
use vstd::prelude::*;
use vstd::string::to_string_from_display_ensures;
use vstd::std_specs::convert::{FromSpecImpl, TryFromSpecImpl};

verus! {

/// The multicodec code of ChaCha20-Poly1305, the AEAD cipher of the
/// threshold metadata.
pub const CHACHA20_POLY1305_CODE: u64 = 0xa000;

/// Disclosure mode for the threshold parameters `t` and `n`.
#[derive(Clone, Copy, Debug, Default, PartialEq, Eq, Structural, Hash, PartialOrd, Ord)]
pub enum ThresholdDisclosure {
    /// `t` and `n` are plaintext attributes (the default).
    #[default]
    Full,
    /// `n` is plaintext, `t` is encrypted.
    Partial,
    /// Both `t` and `n` are encrypted.
    FullConfidentialial,
}

/// The human-readable name of a disclosure mode.
pub open spec fn disclosure_name(mode: ThresholdDisclosure) -> Seq<char> {
    match mode {
        ThresholdDisclosure::Full => "full"@,
        ThresholdDisclosure::Partial => "partial"@,
        ThresholdDisclosure::FullConfidentialial => "full-confidentialial"@,
    }
}

/// The `u8` code of a disclosure mode.
pub open spec fn mode_code(mode: ThresholdDisclosure) -> u8 {
    match mode {
        ThresholdDisclosure::Full => 0,
        ThresholdDisclosure::Partial => 1,
        ThresholdDisclosure::FullConfidentialial => 2,
    }
}

/// The disclosure mode with the given code, if any.
pub open spec fn mode_of_code(code: nat) -> Option<ThresholdDisclosure> {
    if code == 0 {
        Some(ThresholdDisclosure::Full)
    } else if code == 1 {
        Some(ThresholdDisclosure::Partial)
    } else if code == 2 {
        Some(ThresholdDisclosure::FullConfidentialial)
    } else {
        None
    }
}

/// A metadata error with the given message.
fn meta_error(msg: &str) -> (r: Error)
    ensures
        r matches Error::Shares(SharesError::MetaEncryption(s)) && s@ == msg@,
{
    Error::Shares(SharesError::MetaEncryption(String::from_str(msg)))
}

impl ThresholdDisclosure {
    /// The human-readable name of this mode.
    pub fn as_str(&self) -> (r: &'static str)
        ensures
            r@ == disclosure_name(*self),
    {
        match self {
            ThresholdDisclosure::Full => "full",
            ThresholdDisclosure::Partial => "partial",
            ThresholdDisclosure::FullConfidentialial => "full-confidentialial",
        }
    }

    /// The human-readable name of this mode, as a `String`.
    pub fn to_string(&self) -> (r: String)
        ensures
            r@ == disclosure_name(*self),
    {
        String::from_str(self.as_str())
    }

    /// The mode with the given code; any other code is an error.
    pub fn from_code(code: u8) -> (r: Result<Self, Error>)
        ensures
            match mode_of_code(code as nat) {
                Some(m) => r matches Ok(m2) && m2 == m,
                None => r matches Err(Error::Shares(SharesError::MetaEncryption(s))) && s@
                    == "invalid disclosure mode: "@ + decimal(code as nat),
            },
    {
        match code {
            0 => Ok(Self::Full),
            1 => Ok(Self::Partial),
            2 => Ok(Self::FullConfidentialial),
            _ => {
                let n = decimal_string(code as u64);
                Err(
                    Error::Shares(
                        SharesError::MetaEncryption(join("invalid disclosure mode: ", n.as_str())),
                    ),
                )
            },
        }
    }

    /// The mode's code as an unsigned varint (a single byte).
    pub fn encode_into(&self) -> (r: Vec<u8>)
        ensures
            r@ == uvarint(mode_code(*self) as nat),
            r@ == seq![mode_code(*self)],
    {
        let code: u8 = (*self).into();
        encode_u8(code)
    }

    /// Decode a mode from the varint at the front of `bytes`, handing back
    /// the bytes after it.
    pub fn try_decode_from(bytes: &[u8]) -> (r: Result<(Self, &[u8]), Error>)
        ensures
            match decode_u8_spec(bytes@) {
                Ok((c, k)) => match mode_of_code(c) {
                    Some(m) => r matches Ok((m2, rest)) && m2 == m && rest@ == bytes@.skip(k as int),
                    None => r matches Err(Error::Shares(SharesError::MetaEncryption(s))) && s@
                        == "invalid disclosure mode: "@ + decimal(c),
                },
                Err(_) => r matches Err(Error::Multitrait(e)) && is_varint_error(e),
            },
    {
        match decode_u8(bytes) {
            Ok((code, ptr)) => match Self::from_code(code) {
                Ok(mode) => Ok((mode, ptr)),
                Err(e) => Err(e),
            },
            Err(e) => Err(Error::Multitrait(e)),
        }
    }
}

impl From<ThresholdDisclosure> for u8 {
    fn from(val: ThresholdDisclosure) -> (r: u8) {
        match val {
            ThresholdDisclosure::Full => 0,
            ThresholdDisclosure::Partial => 1,
            ThresholdDisclosure::FullConfidentialial => 2,
        }
    }
}

impl FromSpecImpl<ThresholdDisclosure> for u8 {
    open spec fn obeys_from_spec() -> bool {
        true
    }

    open spec fn from_spec(v: ThresholdDisclosure) -> u8 {
        mode_code(v)
    }
}

impl TryFrom<u8> for ThresholdDisclosure {
    type Error = Error;

    fn try_from(code: u8) -> (r: Result<Self, Error>)
        ensures
            match mode_of_code(code as nat) {
                Some(m) => r matches Ok(m2) && m2 == m,
                None => r matches Err(Error::Shares(SharesError::MetaEncryption(s))) && s@
                    == "invalid disclosure mode: "@ + decimal(code as nat),
            },
    {
        Self::from_code(code)
    }
}

impl TryFromSpecImpl<u8> for ThresholdDisclosure {
    open spec fn obeys_try_from_spec() -> bool {
        false
    }

    open spec fn try_from_spec(v: u8) -> Result<Self, Error> {
        match mode_of_code(v as nat) {
            Some(m) => Ok(m),
            None => Err(vstd::pervasive::arbitrary()),
        }
    }
}

/// The threshold parameters that may be encrypted.
#[derive(Clone, Debug, Default, PartialEq, Eq)]
pub struct ThresholdMetadata {
    /// The threshold `t`, if stored.
    pub threshold: Option<u16>,
    /// The limit `n`, if stored.
    pub limit: Option<u16>,
}

/// The CBOR encoding of threshold metadata: a map from `threshold` and
/// `limit` to an unsigned integer or `null`.
pub open spec fn metadata_cbor(m: ThresholdMetadata) -> Seq<u8> {
    metadata_layout(m.threshold, m.limit)
}

/// The threshold metadata that `b` holds, read as [`parse_metadata`]
/// describes.
pub open spec fn metadata_from_cbor(b: Seq<u8>) -> Option<ThresholdMetadata> {
    match parse_metadata(b) {
        Some((threshold, limit)) => Some(ThresholdMetadata { threshold, limit }),
        None => None,
    }
}

/// The bytes of the encoding of metadata whose values are below 24: a map of
/// two entries, the text `threshold` and its value, then the text `limit`
/// and its value, `null` (0xf6) standing for a missing value.
pub proof fn lemma_metadata_cbor_bytes(t: Option<u16>, l: Option<u16>)
    requires
        t matches Some(x) ==> x < 24,
        l matches Some(x) ==> x < 24,
    ensures
        metadata_cbor(ThresholdMetadata { threshold: t, limit: l }) == seq![
            0xa2u8, 0x69, 0x74, 0x68, 0x72, 0x65, 0x73, 0x68, 0x6f, 0x6c, 0x64,
            match t { Some(x) => x as u8, None => 0xf6u8 },
            0x65, 0x6c, 0x69, 0x6d, 0x69, 0x74,
            match l { Some(x) => x as u8, None => 0xf6u8 },
        ],
{
    assert(metadata_cbor(ThresholdMetadata { threshold: t, limit: l }) =~= seq![
        0xa2u8, 0x69, 0x74, 0x68, 0x72, 0x65, 0x73, 0x68, 0x6f, 0x6c, 0x64,
        match t { Some(x) => x as u8, None => 0xf6u8 },
        0x65, 0x6c, 0x69, 0x6d, 0x69, 0x74,
        match l { Some(x) => x as u8, None => 0xf6u8 },
    ]);
}

/// Threshold metadata is read back from its encoding.
pub proof fn lemma_metadata_cbor_roundtrip(m: ThresholdMetadata)
    ensures
        metadata_from_cbor(metadata_cbor(m)) == Some(m),
{
    lemma_parse_metadata(m.threshold, m.limit);
}

impl ThresholdMetadata {
    /// Metadata holding both `t` and `n`.
    pub fn new(threshold: u16, limit: u16) -> (r: Self)
        ensures
            r.threshold == Some(threshold),
            r.limit == Some(limit),
    {
        Self { threshold: Some(threshold), limit: Some(limit) }
    }

    /// Metadata holding only the threshold (Partial mode).
    pub fn threshold_only(threshold: u16) -> (r: Self)
        ensures
            r.threshold == Some(threshold),
            r.limit.is_none(),
    {
        Self { threshold: Some(threshold), limit: None }
    }

    /// Encode to CBOR bytes; this does not fail.
    pub fn to_cbor_bytes(&self) -> (r: Result<Vec<u8>, Error>)
        ensures
            r matches Ok(b) && b@ == metadata_cbor(*self),
    {
        Ok(write_metadata(self.threshold, self.limit))
    }

    /// Decode from CBOR bytes: a map with the `threshold` and `limit`
    /// entries in any order, as [`parse_metadata`] describes.
    pub fn from_cbor_bytes(bytes: &[u8]) -> (r: Result<Self, Error>)
        ensures
            match metadata_from_cbor(bytes@) {
                Some(m) => r matches Ok(m2) && m2 == m,
                None => r matches Err(Error::Shares(SharesError::MetaEncryption(s))) && s@
                    == metadata_decode_message(),
            },
    {
        match read_metadata(bytes) {
            Some((threshold, limit)) => Ok(Self { threshold, limit }),
            None => Err(meta_error("CBOR decode: not a threshold metadata encoding")),
        }
    }
}

/// The message of the error for bytes that hold no threshold metadata.
pub open spec fn metadata_decode_message() -> Seq<char> {
    "CBOR decode: not a threshold metadata encoding"@
}

/// The message of the error for bytes that hold no cipher parameters.
pub open spec fn cipher_decode_message() -> Seq<char> {
    "CBOR decode cipher: not a cipher parameters encoding"@
}

/// Cipher parameters for decrypting [`ThresholdMetadata`].
#[derive(Clone, Debug, Default, PartialEq, Eq)]
pub struct ThresholdMetaCipher {
    /// The multicodec code of the AEAD cipher (`0xa000` for
    /// ChaCha20-Poly1305).
    pub cipher_codec: u64,
    /// The nonce bytes.
    pub nonce: Vec<u8>,
}

/// The CBOR encoding of cipher parameters: a map from `cipher_codec` to an
/// unsigned integer and from `nonce` to an array of unsigned integers.
pub open spec fn cipher_cbor(code: u64, nonce: Seq<u8>) -> Seq<u8> {
    cipher_layout(code, nonce)
}

/// The cipher parameters (code and nonce) that `b` holds, read as
/// [`parse_cipher`] describes.
pub open spec fn cipher_from_cbor(b: Seq<u8>) -> Option<(u64, Seq<u8>)> {
    parse_cipher(b)
}

/// Cipher parameters are read back from their encoding.
pub proof fn lemma_cipher_cbor_roundtrip(code: u64, nonce: Seq<u8>)
    requires
        nonce.len() < 0x1_0000_0000_0000_0000,
    ensures
        cipher_from_cbor(cipher_cbor(code, nonce)) == Some((code, nonce)),
{
    lemma_parse_cipher(code, nonce);
}

impl ThresholdMetaCipher {
    /// Cipher parameters for the cipher with the given multicodec code.
    pub fn new(cipher_codec: u64, nonce: Vec<u8>) -> (r: Self)
        ensures
            r.cipher_codec == cipher_codec,
            r.nonce@ == nonce@,
    {
        Self { cipher_codec, nonce }
    }

    /// Encode to CBOR bytes; this does not fail.
    pub fn to_cbor_bytes(&self) -> (r: Result<Vec<u8>, Error>)
        ensures
            r matches Ok(b) && b@ == cipher_cbor(self.cipher_codec, self.nonce@),
    {
        Ok(write_cipher(self.cipher_codec, self.nonce.as_slice()))
    }

    /// Decode from CBOR bytes: a map with the `cipher_codec` and `nonce`
    /// entries in any order, as [`parse_cipher`] describes.
    pub fn from_cbor_bytes(bytes: &[u8]) -> (r: Result<Self, Error>)
        ensures
            match cipher_from_cbor(bytes@) {
                Some((code, nonce)) => r matches Ok(c) && c.cipher_codec == code && c.nonce@
                    == nonce,
                None => r matches Err(Error::Shares(SharesError::MetaEncryption(s))) && s@
                    == cipher_decode_message(),
            },
    {
        match read_cipher(bytes) {
            Some((code, nonce)) => Ok(Self { cipher_codec: code, nonce }),
            None => Err(meta_error("CBOR decode cipher: not a cipher parameters encoding")),
        }
    }
}

/// The associated data that the threshold metadata is sealed with: the
/// bytes of `threshold-meta`.
pub open spec fn meta_aad() -> Seq<u8> {
    seq![0x74u8, 0x68, 0x72, 0x65, 0x73, 0x68, 0x6f, 0x6c, 0x64, 0x2d, 0x6d, 0x65, 0x74, 0x61]
}

fn meta_aad_bytes() -> (r: [u8; 14])
    ensures
        r@ == meta_aad(),
{
    let r: [u8; 14] = [
        0x74,
        0x68,
        0x72,
        0x65,
        0x73,
        0x68,
        0x6f,
        0x6c,
        0x64,
        0x2d,
        0x6d,
        0x65,
        0x74,
        0x61,
    ];
    assert(r@ =~= meta_aad());
    r
}

/// What decrypting `encrypted` with the cipher `code` and `nonce` under
/// `key` gives: the metadata, or `None` where the key is not 32 bytes, the
/// cipher is not ChaCha20-Poly1305, the nonce is not 12 bytes, the tag does
/// not check or the plaintext is not an encoding of metadata.
pub open spec fn decrypt_spec(encrypted: Seq<u8>, code: u64, nonce: Seq<u8>, key: Seq<u8>) -> Option<
    ThresholdMetadata,
> {
    if key.len() != 32 || code != CHACHA20_POLY1305_CODE || nonce.len() != 12 {
        None
    } else {
        match chacha20poly1305_open(key, nonce, encrypted, meta_aad()) {
            Some(plaintext) => metadata_from_cbor(plaintext),
            None => None,
        }
    }
}

/// The message of the error for a stored nonce of `len` bytes.
pub open spec fn nonce_length_message(len: nat) -> Seq<char> {
    "invalid nonce length: expected 12, got "@ + decimal(len)
}

/// The message of the error for a meta key of `len` bytes.
pub open spec fn key_length_message(len: nat) -> Seq<char> {
    "invalid key length: expected 32, got "@ + decimal(len)
}

/// The start of the message of the error for a failure of the system's
/// random number generator.
pub open spec fn rng_failure_prefix() -> Seq<char> {
    "RNG failure: "@
}

/// `m` is the message of a failure of the system's random number
/// generator: `RNG failure: ` followed by how `getrandom` shows one of its
/// errors. No metadata value gives such a message.
pub open spec fn rng_failure_message(m: Seq<char>) -> bool {
    exists|g: getrandom::Error, t: String|
        #[trigger] to_string_from_display_ensures::<getrandom::Error>(&g, t) && m
            == rng_failure_prefix() + t@
}

/// What encrypting `meta` under `key` may give: for a key that is not 32
/// bytes the key length error; for a 32-byte key either the metadata sealed
/// under a 12-byte nonce or a failure of the random number generator.
pub open spec fn encryption_outcome(
    meta: ThresholdMetadata,
    key: Seq<u8>,
    r: Result<(Vec<u8>, ThresholdMetaCipher), Error>,
) -> bool {
    if key.len() != 32 {
        r matches Err(Error::Shares(SharesError::MetaEncryption(m))) && m@ == key_length_message(
            key.len(),
        )
    } else {
        match r {
            Ok((ct, ci)) => ci.nonce@.len() == 12 && sealed_meta(meta, key, ci.nonce@, ct@, ci),
            Err(e) => e matches Error::Shares(SharesError::MetaEncryption(m)) && rng_failure_message(
                m@,
            ),
        }
    }
}

/// The start of the message of the error that stamping in an encrypting
/// mode gives where the system's random number generator fails.
pub open spec fn stamp_rng_prefix() -> Seq<char> {
    "Threshold metadata error: "@ + rng_failure_prefix()
}

/// The error that stamping in an encrypting mode under the meta key `k`
/// gives: for a key that is not 32 bytes, the key length error; for a
/// 32-byte key, only a failure of the random number generator.
pub open spec fn stamp_key_error(k: Seq<u8>, e: Error) -> bool {
    &&& e matches Error::Shares(SharesError::MetaEncryption(m))
    &&& k.len() != 32 ==> m@ == "Threshold metadata error: "@ + key_length_message(k.len())
    &&& k.len() == 32 ==> stamp_rng_prefix().is_prefix_of(m@)
    &&& k.len() == 32 ==> exists|g: getrandom::Error, t: String|
        #[trigger] to_string_from_display_ensures::<getrandom::Error>(&g, t) && m@
            == "Threshold metadata error: "@ + (rng_failure_prefix() + t@)
}

/// The message of the error for cipher parameters that do not name
/// ChaCha20-Poly1305.
pub open spec fn unsupported_cipher_message(code: u64) -> Seq<char> {
    "unsupported AEAD codec: "@ + decimal(code as nat)
}

/// Encrypt threshold metadata with ChaCha20-Poly1305 under a 32-byte `key`
/// and a random 12-byte nonce; returns the ciphertext and the cipher
/// parameters.
pub fn encrypt_threshold_meta(meta: &ThresholdMetadata, key: &[u8]) -> (r: Result<
    (Vec<u8>, ThresholdMetaCipher),
    Error,
>)
    ensures
        key@.len() != 32 ==> (r matches Err(Error::Shares(SharesError::MetaEncryption(m)))
            && m@ == key_length_message(key@.len())),
        key@.len() == 32 ==> (r matches Err(e) ==> e matches Error::Shares(
            SharesError::MetaEncryption(m),
        ) && rng_failure_prefix().is_prefix_of(m@)),
        key@.len() == 32 ==> (r matches Err(e) ==> e matches Error::Shares(
            SharesError::MetaEncryption(m),
        ) && rng_failure_message(m@)),
        r matches Ok((ct, ci)) ==> ci.nonce@.len() == 12 && sealed_meta(*meta, key@, ci.nonce@, ct@, ci),
        encryption_outcome(*meta, key@, r),
{
    if key.len() != 32 {
        let n = decimal_string(key.len() as u64);
        let msg = join("invalid key length: expected 32, got ", n.as_str());
        return Err(Error::Shares(SharesError::MetaEncryption(msg)));
    }
    let mut nonce: Vec<u8> = Vec::new();
    let mut i: usize = 0;
    while i < 12
        invariant
            i <= 12,
            nonce@.len() == i,
        decreases 12 - i,
    {
        nonce.push(0);
        i = i + 1;
    }
    match fill_random(&mut nonce) {
        Ok(()) => {},
        Err(e) => {
            let t = e.to_string();
            let msg = join("RNG failure: ", t.as_str());
            proof {
                reveal_strlit("RNG failure: ");
                assert(rng_failure_prefix().is_prefix_of(msg@));
                assert(to_string_from_display_ensures::<getrandom::Error>(&e, t));
                assert(rng_failure_message(msg@));
            }
            return Err(Error::Shares(SharesError::MetaEncryption(msg)));
        },
    }
    encrypt_threshold_meta_with_nonce(meta, key, nonce)
}

/// `ct` and `ci` are `meta` sealed with ChaCha20-Poly1305 under the 32-byte
/// `key` and `nonce`: the ciphertext (the encoding of `meta` and a 16-byte
/// tag), which opens again to that encoding, and the cipher parameters that
/// name the cipher and the nonce.
pub open spec fn sealed_meta(
    meta: ThresholdMetadata,
    key: Seq<u8>,
    nonce: Seq<u8>,
    ct: Seq<u8>,
    ci: ThresholdMetaCipher,
) -> bool {
    &&& key.len() == 32
    &&& ci.cipher_codec == CHACHA20_POLY1305_CODE
    &&& ci.nonce@ == nonce
    &&& ct == chacha20poly1305_seal(key, nonce, metadata_cbor(meta), meta_aad())
    &&& ct.len() == metadata_cbor(meta).len() + 16
    &&& chacha20poly1305_open(key, nonce, ct, meta_aad()) == Some(metadata_cbor(meta))
}

/// Encrypt threshold metadata with ChaCha20-Poly1305 under a 32-byte `key`
/// and the given 12-byte nonce; returns the ciphertext and the cipher
/// parameters. [`encrypt_threshold_meta`] draws the nonce at random.
pub fn encrypt_threshold_meta_with_nonce(
    meta: &ThresholdMetadata,
    key: &[u8],
    nonce: Vec<u8>,
) -> (r: Result<(Vec<u8>, ThresholdMetaCipher), Error>)
    requires
        nonce@.len() == 12,
    ensures
        key@.len() != 32 ==> (r matches Err(Error::Shares(SharesError::MetaEncryption(m)))
            && m@ == key_length_message(key@.len())),
        key@.len() == 32 ==> (r matches Ok((ct, ci)) && sealed_meta(*meta, key@, nonce@, ct@, ci)),
{
    if key.len() != 32 {
        let n = decimal_string(key.len() as u64);
        let msg = join("invalid key length: expected 32, got ", n.as_str());
        return Err(Error::Shares(SharesError::MetaEncryption(msg)));
    }
    let plaintext = match meta.to_cbor_bytes() {
        Ok(b) => b,
        Err(e) => return Err(e),
    };
    let aad = meta_aad_bytes();
    proof {
        lemma_metadata_cbor_len(*meta);
    }
    match seal(key, nonce.as_slice(), plaintext.as_slice(), &aad) {
        Ok(ciphertext) => {
            let cipher_info = ThresholdMetaCipher::new(CHACHA20_POLY1305_CODE, nonce);
            Ok((ciphertext, cipher_info))
        },
        Err(e) => {
            let t = e.to_string();
            Err(Error::Shares(SharesError::MetaEncryption(join("AEAD seal: ", t.as_str()))))
        },
    }
}

/// An encoding of threshold metadata is short.
proof fn lemma_metadata_cbor_len(m: ThresholdMetadata)
    ensures
        metadata_cbor(m).len() <= 24,
{
    if let Some(t) = m.threshold {
        lemma_head_len(0, t as nat);
    }
    if let Some(l) = m.limit {
        lemma_head_len(0, l as nat);
    }
}

/// Decrypt threshold metadata sealed with ChaCha20-Poly1305 under `key`.
pub fn decrypt_threshold_meta(
    encrypted: &[u8],
    cipher_info: &ThresholdMetaCipher,
    key: &[u8],
) -> (r: Result<ThresholdMetadata, Error>)
    ensures
        match decrypt_spec(encrypted@, cipher_info.cipher_codec, cipher_info.nonce@, key@) {
            Some(m) => r matches Ok(m2) && m2 == m,
            None => r matches Err(Error::Shares(SharesError::MetaEncryption(m))) && m@
                == decrypt_error_text(encrypted@, cipher_info.cipher_codec, cipher_info.nonce@, key@),
        },
        key@.len() != 32 ==> (r matches Err(Error::Shares(SharesError::MetaEncryption(m)))
            && m@ == key_length_message(key@.len())),
        key@.len() == 32 && cipher_info.cipher_codec != CHACHA20_POLY1305_CODE ==> (r matches Err(
            Error::Shares(SharesError::MetaEncryption(m)),
        ) && m@ == unsupported_cipher_message(cipher_info.cipher_codec)),
        key@.len() == 32 && cipher_info.cipher_codec == CHACHA20_POLY1305_CODE
            && cipher_info.nonce@.len() != 12 ==> (r matches Err(
            Error::Shares(SharesError::MetaEncryption(m)),
        ) && m@ == nonce_length_message(cipher_info.nonce@.len())),
{
    if key.len() != 32 {
        let n = decimal_string(key.len() as u64);
        let msg = join("invalid key length: expected 32, got ", n.as_str());
        return Err(Error::Shares(SharesError::MetaEncryption(msg)));
    }
    if cipher_info.cipher_codec != CHACHA20_POLY1305_CODE {
        let n = decimal_string(cipher_info.cipher_codec);
        let msg = join("unsupported AEAD codec: ", n.as_str());
        return Err(Error::Shares(SharesError::MetaEncryption(msg)));
    }
    if cipher_info.nonce.len() != 12 {
        let n = decimal_string(cipher_info.nonce.len() as u64);
        let msg = join("invalid nonce length: expected 12, got ", n.as_str());
        return Err(Error::Shares(SharesError::MetaEncryption(msg)));
    }
    let aad = meta_aad_bytes();
    match open(key, cipher_info.nonce.as_slice(), encrypted, &aad) {
        Ok(plaintext) => ThresholdMetadata::from_cbor_bytes(plaintext.as_slice()),
        Err(e) => {
            let t = e.to_string();
            Err(Error::Shares(SharesError::MetaEncryption(join("AEAD open: ", t.as_str()))))
        },
    }
}

/// The bytes of the attribute `id`, if present.
pub open spec fn attr_bytes(attrs: Map<u8, Seq<u8>>, id: AttrId) -> Option<Seq<u8>> {
    if attrs.contains_key(attr_code(id)) {
        Some(attrs[attr_code(id)])
    } else {
        None
    }
}

/// The disclosure mode that the attributes record, `Full` where none is
/// recorded, or `None` where the recorded one cannot be read.
pub open spec fn disclosure_mode_of(attrs: Map<u8, Seq<u8>>) -> Option<ThresholdDisclosure> {
    match attr_bytes(attrs, AttrId::ThresholdDisclosure) {
        None => Some(ThresholdDisclosure::Full),
        Some(v) => match decode_u8_spec(v) {
            Ok((c, _)) => mode_of_code(c),
            Err(_) => None,
        },
    }
}

/// The message of the error for a recorded disclosure mode that cannot be
/// read: the stored byte is not a varint, or not the code of a mode.
pub open spec fn disclosure_error_text(attrs: Map<u8, Seq<u8>>) -> Seq<char> {
    match attr_bytes(attrs, AttrId::ThresholdDisclosure) {
        Some(v) => match decode_u8_spec(v) {
            Ok((c, _)) => "Threshold metadata error: "@ + ("invalid disclosure mode: "@ + decimal(c)),
            Err(_) => varint_error_text(),
        },
        None => Seq::empty(),
    }
}

/// The message of the error that decrypting `encrypted` with the cipher
/// `code` and `nonce` under `key` gives, where it fails.
pub open spec fn decrypt_error_text(encrypted: Seq<u8>, code: u64, nonce: Seq<u8>, key: Seq<u8>) -> Seq<
    char,
> {
    if key.len() != 32 {
        key_length_message(key.len())
    } else if code != CHACHA20_POLY1305_CODE {
        unsupported_cipher_message(code)
    } else if nonce.len() != 12 {
        nonce_length_message(nonce.len())
    } else if chacha20poly1305_open(key, nonce, encrypted, meta_aad()) is None {
        "AEAD open: "@ + "aead::Error"@
    } else {
        metadata_decode_message()
    }
}

/// The message of the error that reading the encrypted metadata of the
/// attributes under `key` gives, where it is a metadata error.
pub open spec fn encrypted_meta_text(attrs: Map<u8, Seq<u8>>, key: Option<Seq<u8>>) -> Seq<char> {
    match attr_bytes(attrs, AttrId::EncryptedThresholdMeta) {
        None => "missing EncryptedThresholdMeta"@,
        Some(encrypted) => match attr_bytes(attrs, AttrId::ThresholdMetaCipher) {
            None => "missing ThresholdMetaCipher"@,
            Some(cipher_bytes) => match cipher_from_cbor(cipher_bytes) {
                None => "Threshold metadata error: "@ + cipher_decode_message(),
                Some((code, nonce)) => match key {
                    None => Seq::empty(),
                    Some(k) => "Threshold metadata error: "@ + decrypt_error_text(
                        encrypted,
                        code,
                        nonce,
                        k,
                    ),
                },
            },
        },
    }
}

/// The message of the metadata error that reading the threshold parameters
/// of the attributes under `key` gives, where it gives one.
pub open spec fn read_error_text(attrs: Map<u8, Seq<u8>>, key: Option<Seq<u8>>) -> Seq<char> {
    match disclosure_mode_of(attrs) {
        None => disclosure_error_text(attrs),
        Some(ThresholdDisclosure::Full) => Seq::empty(),
        Some(ThresholdDisclosure::Partial) => match encrypted_meta_of(attrs, key) {
            Err(_) => encrypted_meta_text(attrs, key),
            Ok(_) => "threshold not in encrypted metadata"@,
        },
        Some(ThresholdDisclosure::FullConfidentialial) => match encrypted_meta_of(attrs, key) {
            Err(_) => encrypted_meta_text(attrs, key),
            Ok(m) => if m.threshold is None {
                "threshold not in encrypted metadata"@
            } else {
                "limit not in encrypted metadata"@
            },
        },
    }
}

/// Read the disclosure mode of a Multisig; it is `Full` where the Multisig
/// records none.
pub fn disclosure_mode(ms: &Multisig) -> (r: Result<ThresholdDisclosure, Error>)
    ensures
        match disclosure_mode_of(attr_view(ms.attributes@)) {
            Some(m) => r matches Ok(m2) && m2 == m,
            None => r matches Err(Error::Shares(SharesError::MetaEncryption(m))) && m@
                == disclosure_error_text(attr_view(ms.attributes@)),
        },
{
    let code = AttrId::ThresholdDisclosure.code();
    match ms.attributes.get(&code) {
        Some(v) => match ThresholdDisclosure::try_decode_from(v.as_slice()) {
            Ok((mode, _)) => Ok(mode),
            Err(e) => Err(Error::Shares(SharesError::MetaEncryption(e.to_string()))),
        },
        None => Ok(ThresholdDisclosure::Full),
    }
}

/// Which error a read of the threshold parameters fails with.
pub enum MetaFault {
    /// The plaintext threshold attribute is missing.
    MissingThreshold,
    /// The plaintext limit attribute is missing.
    MissingLimit,
    /// A plaintext threshold or limit is not a varint.
    Varint,
    /// The disclosure mode or the encrypted metadata cannot be read.
    MetaEncryption,
    /// The metadata is encrypted and no meta key was given.
    MissingMetaKey,
}

/// The message of the error for a plaintext threshold or limit that is not
/// a varint.
pub open spec fn varuint_failure_message() -> Seq<char> {
    "Custom error: failed to decode varuint"@
}

/// Whether `e` is the error that `f` names.
pub open spec fn fault_matches(e: Error, f: MetaFault) -> bool {
    match f {
        MetaFault::MissingThreshold => e matches Error::Attributes(AttributesError::MissingThreshold),
        MetaFault::MissingLimit => e matches Error::Attributes(AttributesError::MissingLimit),
        MetaFault::Varint => e matches Error::Multiutil(m) && m@ == varuint_failure_message(),
        MetaFault::MetaEncryption => e matches Error::Shares(SharesError::MetaEncryption(_)),
        MetaFault::MissingMetaKey => e matches Error::Shares(SharesError::MissingMetaKey),
    }
}

/// The bytes of an optional meta key.
pub open spec fn key_view(key: Option<&[u8]>) -> Option<Seq<u8>> {
    match key {
        Some(k) => Some(k@),
        None => None,
    }
}

/// The encrypted metadata of the attributes, decrypted under `key`.
pub open spec fn encrypted_meta_of(attrs: Map<u8, Seq<u8>>, key: Option<Seq<u8>>) -> Result<
    ThresholdMetadata,
    MetaFault,
> {
    match attr_bytes(attrs, AttrId::EncryptedThresholdMeta) {
        None => Err(MetaFault::MetaEncryption),
        Some(encrypted) => match attr_bytes(attrs, AttrId::ThresholdMetaCipher) {
            None => Err(MetaFault::MetaEncryption),
            Some(cipher_bytes) => match cipher_from_cbor(cipher_bytes) {
                None => Err(MetaFault::MetaEncryption),
                Some((code, nonce)) => match key {
                    None => Err(MetaFault::MissingMetaKey),
                    Some(k) => match decrypt_spec(encrypted, code, nonce, k) {
                        None => Err(MetaFault::MetaEncryption),
                        Some(m) => Ok(m),
                    },
                },
            },
        },
    }
}

/// The threshold parameters `(t, n)` that the attributes hold, decrypting
/// with `key` where the disclosure mode asks for it, or the error that
/// reading them gives.
pub open spec fn threshold_params_of(attrs: Map<u8, Seq<u8>>, key: Option<Seq<u8>>) -> Result<
    (nat, nat),
    MetaFault,
> {
    match disclosure_mode_of(attrs) {
        None => Err(MetaFault::MetaEncryption),
        Some(ThresholdDisclosure::Full) => match attr_bytes(attrs, AttrId::Threshold) {
            None => Err(MetaFault::MissingThreshold),
            Some(tb) => match attr_bytes(attrs, AttrId::Limit) {
                None => Err(MetaFault::MissingLimit),
                Some(nb) => match decode_usize_spec(tb) {
                    Err(_) => Err(MetaFault::Varint),
                    Ok((t, _)) => match decode_usize_spec(nb) {
                        Err(_) => Err(MetaFault::Varint),
                        Ok((n, _)) => Ok((t, n)),
                    },
                },
            },
        },
        Some(ThresholdDisclosure::Partial) => match attr_bytes(attrs, AttrId::Limit) {
            None => Err(MetaFault::MissingLimit),
            Some(nb) => match decode_usize_spec(nb) {
                Err(_) => Err(MetaFault::Varint),
                Ok((n, _)) => match encrypted_meta_of(attrs, key) {
                    Err(f) => Err(f),
                    Ok(m) => match m.threshold {
                        None => Err(MetaFault::MetaEncryption),
                        Some(t) => Ok((t as nat, n)),
                    },
                },
            },
        },
        Some(ThresholdDisclosure::FullConfidentialial) => match encrypted_meta_of(attrs, key) {
            Err(f) => Err(f),
            Ok(m) => match m.threshold {
                None => Err(MetaFault::MetaEncryption),
                Some(t) => match m.limit {
                    None => Err(MetaFault::MetaEncryption),
                    Some(n) => Ok((t as nat, n as nat)),
                },
            },
        },
    }
}

/// Decode a plaintext threshold or limit.
fn decode_count(bytes: &[u8]) -> (r: Result<usize, Error>)
    ensures
        match decode_usize_spec(bytes@) {
            Ok((v, _)) => r matches Ok(x) && x == v,
            Err(_) => r matches Err(Error::Multiutil(m)) && m@ == varuint_failure_message(),
        },
{
    match decode_usize(bytes) {
        Ok((v, _)) => Ok(v),
        Err(_) => Err(Error::Multiutil(String::from_str("Custom error: failed to decode varuint"))),
    }
}

/// Read and decrypt the encrypted metadata of a Multisig.
fn read_encrypted_meta(ms: &Multisig, meta_key: Option<&[u8]>) -> (r: Result<
    ThresholdMetadata,
    Error,
>)
    ensures
        match encrypted_meta_of(attr_view(ms.attributes@), key_view(meta_key)) {
            Ok(m) => r matches Ok(m2) && m2 == m,
            Err(f) => r matches Err(e) && fault_matches(e, f),
        },
        r matches Err(Error::Shares(SharesError::MetaEncryption(m))) ==> m@ == encrypted_meta_text(
            attr_view(ms.attributes@),
            key_view(meta_key),
        ),
{
    let encrypted = match ms.attributes.get(&AttrId::EncryptedThresholdMeta.code()) {
        Some(v) => v,
        None => return Err(meta_error("missing EncryptedThresholdMeta")),
    };
    let cipher_info_bytes = match ms.attributes.get(&AttrId::ThresholdMetaCipher.code()) {
        Some(v) => v,
        None => return Err(meta_error("missing ThresholdMetaCipher")),
    };
    let cipher_info = match ThresholdMetaCipher::from_cbor_bytes(cipher_info_bytes.as_slice()) {
        Ok(c) => c,
        Err(e) => return Err(Error::Shares(SharesError::MetaEncryption(e.to_string()))),
    };
    let meta_key = match meta_key {
        Some(k) => k,
        None => return Err(Error::Shares(SharesError::MissingMetaKey)),
    };
    match decrypt_threshold_meta(encrypted.as_slice(), &cipher_info, meta_key) {
        Ok(m) => Ok(m),
        Err(e) => Err(Error::Shares(SharesError::MetaEncryption(e.to_string()))),
    }
}

/// Read `t` and `n` from a Multisig, decrypting them with the raw 32-byte
/// `meta_key` where its disclosure mode encrypts them.
pub fn read_threshold_params(ms: &Multisig, meta_key: Option<&[u8]>) -> (r: Result<
    (usize, usize),
    Error,
>)
    ensures
        match threshold_params_of(attr_view(ms.attributes@), key_view(meta_key)) {
            Ok((t, n)) => r matches Ok((t2, n2)) && t2 == t && n2 == n,
            Err(f) => r matches Err(e) && fault_matches(e, f),
        },
        r matches Err(Error::Shares(SharesError::MetaEncryption(m))) ==> m@ == read_error_text(
            attr_view(ms.attributes@),
            key_view(meta_key),
        ),
{
    let mode = match disclosure_mode(ms) {
        Ok(m) => m,
        Err(e) => return Err(e),
    };
    match mode {
        ThresholdDisclosure::Full => {
            let t = match ms.attributes.get(&AttrId::Threshold.code()) {
                Some(v) => v,
                None => return Err(Error::Attributes(AttributesError::MissingThreshold)),
            };
            let n = match ms.attributes.get(&AttrId::Limit.code()) {
                Some(v) => v,
                None => return Err(Error::Attributes(AttributesError::MissingLimit)),
            };
            let t = match decode_count(t.as_slice()) {
                Ok(v) => v,
                Err(e) => return Err(e),
            };
            let n = match decode_count(n.as_slice()) {
                Ok(v) => v,
                Err(e) => return Err(e),
            };
            Ok((t, n))
        },
        ThresholdDisclosure::Partial => {
            let n = match ms.attributes.get(&AttrId::Limit.code()) {
                Some(v) => v,
                None => return Err(Error::Attributes(AttributesError::MissingLimit)),
            };
            let n = match decode_count(n.as_slice()) {
                Ok(v) => v,
                Err(e) => return Err(e),
            };
            let meta = match read_encrypted_meta(ms, meta_key) {
                Ok(m) => m,
                Err(e) => return Err(e),
            };
            match meta.threshold {
                Some(t) => Ok((t as usize, n)),
                None => Err(meta_error("threshold not in encrypted metadata")),
            }
        },
        ThresholdDisclosure::FullConfidentialial => {
            let meta = match read_encrypted_meta(ms, meta_key) {
                Ok(m) => m,
                Err(e) => return Err(e),
            };
            let t = match meta.threshold {
                Some(t) => t,
                None => return Err(meta_error("threshold not in encrypted metadata")),
            };
            match meta.limit {
                Some(n) => Ok((t as usize, n as usize)),
                None => Err(meta_error("limit not in encrypted metadata")),
            }
        },
    }
}

/// The attributes without any of the five that record the threshold
/// parameters and their disclosure.
pub open spec fn cleared_attrs(attrs: Map<u8, Seq<u8>>) -> Map<u8, Seq<u8>> {
    attrs.remove(attr_code(AttrId::Threshold)).remove(attr_code(AttrId::Limit)).remove(
        attr_code(AttrId::EncryptedThresholdMeta),
    ).remove(attr_code(AttrId::ThresholdMetaCipher)).remove(attr_code(AttrId::ThresholdDisclosure))
}

/// `fin` is `base` with `meta` sealed under `key` and a 12-byte nonce: the
/// ciphertext, the cipher parameters and the disclosure `mode` added.
pub open spec fn sealed_attrs(
    fin: Map<u8, Seq<u8>>,
    base: Map<u8, Seq<u8>>,
    key: Seq<u8>,
    meta: ThresholdMetadata,
    mode: ThresholdDisclosure,
) -> bool {
    exists|nonce: Seq<u8>|
        #![trigger cipher_cbor(CHACHA20_POLY1305_CODE, nonce)]
        {
            let ct = chacha20poly1305_seal(key, nonce, metadata_cbor(meta), meta_aad());
            &&& nonce.len() == 12
            &&& key.len() == 32
            &&& chacha20poly1305_open(key, nonce, ct, meta_aad()) == Some(metadata_cbor(meta))
            &&& fin == base.insert(attr_code(AttrId::EncryptedThresholdMeta), ct).insert(
                attr_code(AttrId::ThresholdMetaCipher),
                cipher_cbor(CHACHA20_POLY1305_CODE, nonce),
            ).insert(attr_code(AttrId::ThresholdDisclosure), seq![mode_code(mode)])
        }
}

/// `base` with plaintext threshold and limit and the disclosure `Full`.
pub open spec fn full_attrs(base: Map<u8, Seq<u8>>, threshold: usize, limit: usize) -> Map<
    u8,
    Seq<u8>,
> {
    base.insert(attr_code(AttrId::Threshold), uvarint(threshold as nat)).insert(
        attr_code(AttrId::Limit),
        uvarint(limit as nat),
    ).insert(attr_code(AttrId::ThresholdDisclosure), seq![0u8])
}

/// What stamping the threshold parameters `threshold` and `limit` in the
/// disclosure `mode` under `key` makes of the attributes `old`: `fin`, with
/// `ok` telling whether it succeeded.
pub open spec fn stamp_result(
    old: Map<u8, Seq<u8>>,
    fin: Map<u8, Seq<u8>>,
    mode: ThresholdDisclosure,
    threshold: usize,
    limit: usize,
    key: Option<Seq<u8>>,
    ok: bool,
) -> bool {
    let base = cleared_attrs(old);
    match mode {
        ThresholdDisclosure::Full => ok && fin == full_attrs(base, threshold, limit),
        ThresholdDisclosure::Partial => {
            let with_limit = base.insert(attr_code(AttrId::Limit), uvarint(limit as nat));
            let meta = ThresholdMetadata { threshold: Some(threshold as u16), limit: None };
            match key {
                None => !ok && fin == base,
                Some(k) => {
                    &&& k.len() != 32 ==> !ok
                    &&& ok ==> sealed_attrs(fin, with_limit, k, meta, mode)
                    &&& !ok ==> fin == with_limit
                },
            }
        },
        ThresholdDisclosure::FullConfidentialial => {
            let meta = ThresholdMetadata {
                threshold: Some(threshold as u16),
                limit: Some(limit as u16),
            };
            match key {
                None => !ok && fin == base,
                Some(k) => {
                    &&& k.len() != 32 ==> !ok
                    &&& ok ==> sealed_attrs(fin, base, k, meta, mode)
                    &&& !ok ==> fin == base
                },
            }
        },
    }
}

/// The error that a failed stamping gives: a missing meta key, or a failed
/// encryption.
pub open spec fn stamp_fault(key: Option<Seq<u8>>) -> MetaFault {
    match key {
        None => MetaFault::MissingMetaKey,
        Some(_) => MetaFault::MetaEncryption,
    }
}

/// Stamp the threshold parameters onto a Multisig's attributes in the
/// disclosure `mode`: the five threshold attributes are removed, then `t`
/// and `n` are written as plaintext varints or sealed (as `u16`) under the
/// raw 32-byte `meta_key`, which the encrypting modes need.
pub fn stamp_disclosure_attrs(
    attributes: &mut BTreeMap<u8, Vec<u8>>,
    mode: ThresholdDisclosure,
    threshold: usize,
    limit: usize,
    meta_key: Option<&[u8]>,
) -> (r: Result<(), Error>)
    ensures
        stamp_result(
            attr_view(old(attributes)@),
            attr_view(final(attributes)@),
            mode,
            threshold,
            limit,
            key_view(meta_key),
            r is Ok,
        ),
        r matches Err(e) ==> fault_matches(e, stamp_fault(key_view(meta_key))),
        mode != ThresholdDisclosure::Full && meta_key is Some ==> (r matches Err(e)
            ==> stamp_key_error(meta_key.unwrap()@, e)),
{
    attributes.remove(&AttrId::Threshold.code());
    attributes.remove(&AttrId::Limit.code());
    attributes.remove(&AttrId::EncryptedThresholdMeta.code());
    attributes.remove(&AttrId::ThresholdMetaCipher.code());
    attributes.remove(&AttrId::ThresholdDisclosure.code());
    let ghost base = attr_view(attributes@);
    assert(base =~= cleared_attrs(attr_view(old(attributes)@)));
    match mode {
        ThresholdDisclosure::Full => {
            attributes.insert(AttrId::Threshold.code(), encode_usize(threshold));
            attributes.insert(AttrId::Limit.code(), encode_usize(limit));
            attributes.insert(AttrId::ThresholdDisclosure.code(), mode.encode_into());
            assert(attr_view(attributes@) =~= full_attrs(base, threshold, limit));
            Ok(())
        },
        ThresholdDisclosure::Partial => {
            let meta_key = match meta_key {
                Some(k) => k,
                None => return Err(Error::Shares(SharesError::MissingMetaKey)),
            };
            attributes.insert(AttrId::Limit.code(), encode_usize(limit));
            let ghost with_limit = attr_view(attributes@);
            assert(with_limit =~= base.insert(attr_code(AttrId::Limit), uvarint(limit as nat)));
            let meta = ThresholdMetadata::threshold_only(threshold as u16);
            seal_into(attributes, &meta, mode, meta_key)
        },
        ThresholdDisclosure::FullConfidentialial => {
            let meta_key = match meta_key {
                Some(k) => k,
                None => return Err(Error::Shares(SharesError::MissingMetaKey)),
            };
            let meta = ThresholdMetadata::new(threshold as u16, limit as u16);
            seal_into(attributes, &meta, mode, meta_key)
        },
    }
}

/// Seal `meta` under `meta_key` and add the ciphertext, the cipher
/// parameters and the disclosure `mode` to the attributes.
fn seal_into(
    attributes: &mut BTreeMap<u8, Vec<u8>>,
    meta: &ThresholdMetadata,
    mode: ThresholdDisclosure,
    meta_key: &[u8],
) -> (r: Result<(), Error>)
    ensures
        meta_key@.len() != 32 ==> r is Err,
        r is Ok ==> sealed_attrs(
            attr_view(final(attributes)@),
            attr_view(old(attributes)@),
            meta_key@,
            *meta,
            mode,
        ),
        r is Err ==> (r matches Err(Error::Shares(SharesError::MetaEncryption(_))) && attr_view(
            final(attributes)@,
        ) == attr_view(old(attributes)@)),
        r matches Err(e) ==> stamp_key_error(meta_key@, e),
{
    let (ciphertext, cipher_info) = match encrypt_threshold_meta(meta, meta_key) {
        Ok(x) => x,
        Err(e) => {
            let m = e.to_string();
            proof {
                reveal_strlit("Threshold metadata error: ");
                let inner = e->Shares_0->MetaEncryption_0@;
                if meta_key@.len() == 32 {
                    assert(m@.subrange(0, stamp_rng_prefix().len() as int) =~= stamp_rng_prefix());
                    assert(rng_failure_message(inner));
                    let (g, t) = choose|g: getrandom::Error, t: String|
                        #[trigger] to_string_from_display_ensures::<getrandom::Error>(&g, t)
                            && inner == rng_failure_prefix() + t@;
                    assert(to_string_from_display_ensures::<getrandom::Error>(&g, t));
                }
            }
            return Err(Error::Shares(SharesError::MetaEncryption(m)));
        },
    };
    let cipher_bytes = match cipher_info.to_cbor_bytes() {
        Ok(b) => b,
        Err(e) => return Err(Error::Shares(SharesError::MetaEncryption(e.to_string()))),
    };
    let ghost nonce = cipher_info.nonce@;
    attributes.insert(AttrId::EncryptedThresholdMeta.code(), ciphertext);
    attributes.insert(AttrId::ThresholdMetaCipher.code(), cipher_bytes);
    attributes.insert(AttrId::ThresholdDisclosure.code(), mode.encode_into());
    proof {
        let ct = chacha20poly1305_seal(meta_key@, nonce, metadata_cbor(*meta), meta_aad());
        assert(attr_view(final(attributes)@) =~= attr_view(old(attributes)@).insert(
            attr_code(AttrId::EncryptedThresholdMeta),
            ct,
        ).insert(
            attr_code(AttrId::ThresholdMetaCipher),
            cipher_cbor(CHACHA20_POLY1305_CODE, nonce),
        ).insert(attr_code(AttrId::ThresholdDisclosure), seq![mode_code(mode)]));
    }
    Ok(())
}

/// The [`ThresholdDisclosureView`] of a Multisig.
pub struct DisclosureView<'a> {
    ms: &'a Multisig,
}

impl<'a> DisclosureView<'a> {
    /// The Multisig that this view reads.
    pub closed spec fn multisig(&self) -> Multisig {
        *self.ms
    }

    /// Create a disclosure view over a Multisig.
    pub fn new(ms: &'a Multisig) -> (r: Self)
        ensures
            r.multisig() == *ms,
    {
        Self { ms }
    }
}

impl<'a> ThresholdDisclosureView for DisclosureView<'a> {
    open spec fn source(&self) -> Multisig {
        self.multisig()
    }

    fn disclosure_mode(&self) -> (r: Result<ThresholdDisclosure, Error>) {
        disclosure_mode(self.ms)
    }

    fn read_threshold_params(&self, meta_key: Option<&[u8]>) -> (r: Result<(usize, usize), Error>) {
        read_threshold_params(self.ms, meta_key)
    }

    fn to_disclosure(
        &self,
        target: ThresholdDisclosure,
        meta_key: Option<&[u8]>,
        current_meta_key: Option<&[u8]>,
    ) -> (r: Result<Multisig, Error>) {
        let (t, n) = match read_threshold_params(self.ms, current_meta_key) {
            Ok(p) => p,
            Err(e) => return Err(e),
        };
        let mut new_ms = Multisig {
            codec: self.ms.codec,
            message: self.ms.message.clone(),
            attributes: self.ms.attributes.clone(),
        };
        proof {
            let tn = threshold_params_of(attr_view(self.ms.attributes@), key_view(current_meta_key));
            assert(tn->Ok_0.0 as usize == t && tn->Ok_0.1 as usize == n);
        }
        assert(new_ms.message@ == self.ms.message@);
        assert(attr_view(new_ms.attributes@) == attr_view(self.ms.attributes@));
        match stamp_disclosure_attrs(&mut new_ms.attributes, target, t, n, meta_key) {
            Ok(()) => Ok(new_ms),
            Err(e) => {
                assert(stamp_result(
                    attr_view(self.ms.attributes@),
                    attr_view(new_ms.attributes@),
                    target,
                    t,
                    n,
                    key_view(meta_key),
                    false,
                ));
                Err(e)
            },
        }
    }
}

} // verus!
