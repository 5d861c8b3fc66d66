//! Attribute identifiers of a Multisig.

use vstd::prelude::*;

verus! {

/// The identifier of a Multisig attribute; each is stored under its `u8`
/// code.
#[derive(Clone, Copy, Debug, PartialEq, Eq, Structural, Hash, PartialOrd, Ord)]
pub enum AttrId {
    /// The raw signature bytes
    SigData,
    /// The multicodec encoding of the signed payload
    PayloadEncoding,
    /// The BLS scheme type
    Scheme,
    /// The threshold `t` (plaintext)
    Threshold,
    /// The share count `n` (plaintext)
    Limit,
    /// The share identifier
    ShareIdentifier,
    /// The accumulated threshold data
    ThresholdData,
    /// The threshold disclosure mode
    ThresholdDisclosure,
    /// The encrypted threshold metadata
    EncryptedThresholdMeta,
    /// The cipher parameters of the encrypted threshold metadata
    ThresholdMetaCipher,
}

/// The `u8` code of an attribute identifier.
pub open spec fn attr_code(id: AttrId) -> u8 {
    match id {
        AttrId::SigData => 0,
        AttrId::PayloadEncoding => 1,
        AttrId::Scheme => 2,
        AttrId::Threshold => 3,
        AttrId::Limit => 4,
        AttrId::ShareIdentifier => 5,
        AttrId::ThresholdData => 6,
        AttrId::ThresholdDisclosure => 7,
        AttrId::EncryptedThresholdMeta => 8,
        AttrId::ThresholdMetaCipher => 9,
    }
}

impl AttrId {
    /// The `u8` code of this attribute identifier.
    pub fn code(&self) -> (r: u8)
        ensures
            r == attr_code(*self),
    {
        match self {
            AttrId::SigData => 0,
            AttrId::PayloadEncoding => 1,
            AttrId::Scheme => 2,
            AttrId::Threshold => 3,
            AttrId::Limit => 4,
            AttrId::ShareIdentifier => 5,
            AttrId::ThresholdData => 6,
            AttrId::ThresholdDisclosure => 7,
            AttrId::EncryptedThresholdMeta => 8,
            AttrId::ThresholdMetaCipher => 9,
        }
    }
}

/// The attribute codes of the wire format: `sig-data` 0,
/// `payload-encoding` 1, `scheme` 2, `threshold` 3, `limit` 4,
/// `share-identifier` 5, `threshold-data` 6, `threshold-disclosure` 7,
/// `encrypted-threshold-meta` 8 and `threshold-meta-cipher` 9; no two
/// identifiers share a code.
pub proof fn lemma_attr_codes_are_the_wire_codes(a: AttrId, b: AttrId)
    ensures
        attr_code(AttrId::SigData) == 0,
        attr_code(AttrId::PayloadEncoding) == 1,
        attr_code(AttrId::Scheme) == 2,
        attr_code(AttrId::Threshold) == 3,
        attr_code(AttrId::Limit) == 4,
        attr_code(AttrId::ShareIdentifier) == 5,
        attr_code(AttrId::ThresholdData) == 6,
        attr_code(AttrId::ThresholdDisclosure) == 7,
        attr_code(AttrId::EncryptedThresholdMeta) == 8,
        attr_code(AttrId::ThresholdMetaCipher) == 9,
        attr_code(a) == attr_code(b) <==> a == b,
{
}

} // verus!
