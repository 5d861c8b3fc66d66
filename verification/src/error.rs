//! Errors produced by this library.

use crate::text::{decimal_string, join};
use multi_base::Error as MultibaseError;
use multi_trait::Error as MultitraitError;
use ssh_encoding::LabelError;
use ssh_key::Error as SshKeyError;
use vstd::prelude::*;
use vstd::std_specs::convert::FromSpecImpl;
use vstd::string::to_string_from_display_ensures;

verus! {

/// Errors created by this library.
#[derive(Debug)]
pub enum Error {
    /// Attributes error
    Attributes(AttributesError),
    /// Shares error
    Shares(SharesError),
    /// Conversions error
    Conversions(ConversionsError),
    /// A multibase conversion error
    Multibase(MultibaseError),
    /// A multicodec decoding error, by its message
    Multicodec(String),
    /// A multitrait error
    Multitrait(MultitraitError),
    /// A multiutil error, by its message
    Multiutil(String),
    /// Formatting error
    Fmt(core::fmt::Error),
    /// Utf8 error
    Utf8(std::string::FromUtf8Error),
    /// Vsss error
    Vsss(String),
    /// Missing sigil 0x39
    MissingSigil,
    /// Duplicate attribute error
    DuplicateAttribute(u8),
    /// Failed Varsig conversion
    FailedConversion(String),
    /// Unsupported signature algorithm
    UnsupportedAlgorithm(String),
}

/// Attributes errors created by this library.
#[derive(Debug)]
pub enum AttributesError {
    /// Unsupported signature algorithm, by its multicodec code
    UnsupportedCodec(u64),
    /// No key data attribute
    MissingSignature,
    /// No payload encoding
    MissingPayloadEncoding,
    /// No scheme
    MissingScheme,
    /// No threshold attribute
    MissingThreshold,
    /// No limit attribute
    MissingLimit,
    /// No identifier attribute
    MissingIdentifier,
    /// No threshold data attribute
    MissingThresholdData,
    /// Invalid attribute name
    InvalidAttributeName(String),
    /// Invalid attribute value
    InvalidAttributeValue(u8),
}

/// Shares errors created by this library.
#[derive(Debug)]
pub enum SharesError {
    /// Too many shares
    TooManyShares,
    /// Missing share data
    MissingShareData,
    /// Missing share type id
    MissingShareType,
    /// Invalid share type id
    InvalidSchemeTypeId(u8),
    /// Invalid share type name
    InvalidShareTypeName(String),
    /// Not a signature share
    NotASignatureShare,
    /// Is a signature share
    IsASignatureShare,
    /// Share type mismatch
    ShareTypeMismatch,
    /// Share combine failed
    ShareCombineFailed(String),
    /// Not enough shares to reconstruct the signature
    NotEnoughShares,
    /// Encrypting, decrypting or decoding the threshold metadata failed
    MetaEncryption(String),
    /// A disclosure mode that encrypts needs a meta key and none was given
    MissingMetaKey,
}

/// Conversion errors.
#[derive(Debug)]
pub enum ConversionsError {
    /// Ssh conversion error
    Ssh(SshError),
}

/// SSH errors.
#[derive(Debug)]
pub enum SshError {
    /// SSH Sig
    Sig(SshKeyError),
    /// SSH Sig label
    SigLabel(LabelError),
}

/// The name of the kind of an error.
pub open spec fn error_kind(e: Error) -> Seq<char> {
    match e {
        Error::Attributes(_) => "Attributes"@,
        Error::Shares(_) => "Shares"@,
        Error::Conversions(_) => "Conversions"@,
        Error::Multibase(_) => "Multibase"@,
        Error::Multicodec(_) => "Multicodec"@,
        Error::Multitrait(_) => "Multitrait"@,
        Error::Multiutil(_) => "Multiutil"@,
        Error::Fmt(_) => "Fmt"@,
        Error::Utf8(_) => "Utf8"@,
        Error::Vsss(_) => "Vsss"@,
        Error::MissingSigil => "MissingSigil"@,
        Error::DuplicateAttribute(_) => "DuplicateAttribute"@,
        Error::FailedConversion(_) => "FailedConversion"@,
        Error::UnsupportedAlgorithm(_) => "UnsupportedAlgorithm"@,
    }
}

/// The message of an attributes error.
pub open spec fn attributes_error_text(e: AttributesError) -> Seq<char> {
    match e {
        AttributesError::UnsupportedCodec(code) => "Unsupported signature codec: "@ + crate::text::decimal(
            code as nat,
        ),
        AttributesError::MissingSignature => "Signature data missing"@,
        AttributesError::MissingPayloadEncoding => "Signature missing payload encoding"@,
        AttributesError::MissingScheme => "Signature missing scheme"@,
        AttributesError::MissingThreshold => "Signature missing threshold"@,
        AttributesError::MissingLimit => "Signature missing limi"@,
        AttributesError::MissingIdentifier => "Signature missing identifier"@,
        AttributesError::MissingThresholdData => "Signature missing threshold data"@,
        AttributesError::InvalidAttributeName(s) => "Invalid attribute name "@ + s@,
        AttributesError::InvalidAttributeValue(v) => "Invalid attribute value "@ + crate::text::decimal(
            v as nat,
        ),
    }
}

/// The message of a shares error.
pub open spec fn shares_error_text(e: SharesError) -> Seq<char> {
    match e {
        SharesError::TooManyShares => "Threshold signature has too many shares"@,
        SharesError::MissingShareData => "Missing share data"@,
        SharesError::MissingShareType => "Missing share type"@,
        SharesError::InvalidSchemeTypeId(v) => "Invalid signature scheme type id "@
            + crate::text::decimal(v as nat),
        SharesError::InvalidShareTypeName(s) => "Invalid share type name "@ + s@,
        SharesError::NotASignatureShare => "Not a signature share"@,
        SharesError::IsASignatureShare => "Is a signature share"@,
        SharesError::ShareTypeMismatch => "Signature share type mismatch"@,
        SharesError::ShareCombineFailed(s) => "Signature share combine failed: "@ + s@,
        SharesError::NotEnoughShares => "Not enough shares to reconstruct the signature"@,
        SharesError::MetaEncryption(s) => "Threshold metadata error: "@ + s@,
        SharesError::MissingMetaKey => "Missing threshold metadata key"@,
    }
}

/// The message of an error, where it does not come from an outside error's
/// `Display`.
pub open spec fn error_text(e: Error) -> Option<Seq<char>> {
    match e {
        Error::Attributes(a) => Some(attributes_error_text(a)),
        Error::Shares(s) => Some(shares_error_text(s)),
        Error::Multicodec(s) => Some(s@),
        Error::Multiutil(s) => Some(s@),
        Error::Vsss(s) => Some("Vsss share error: "@ + s@),
        Error::MissingSigil => Some("Missing Multisig sigil"@),
        Error::DuplicateAttribute(v) => Some(
            "Duplicate Multikey attribute: "@ + crate::text::decimal(v as nat),
        ),
        Error::FailedConversion(s) => Some("Failed Varsig conversion: "@ + s@),
        Error::UnsupportedAlgorithm(s) => Some("Unsupported signature codec: "@ + s@),
        _ => None,
    }
}

impl AttributesError {
    /// The error's message.
    pub fn to_string(&self) -> (r: String)
        ensures
            r@ == attributes_error_text(*self),
    {
        match self {
            AttributesError::UnsupportedCodec(code) => {
                let n = decimal_string(*code);
                join("Unsupported signature codec: ", n.as_str())
            },
            AttributesError::MissingSignature => String::from_str("Signature data missing"),
            AttributesError::MissingPayloadEncoding => String::from_str(
                "Signature missing payload encoding",
            ),
            AttributesError::MissingScheme => String::from_str("Signature missing scheme"),
            AttributesError::MissingThreshold => String::from_str("Signature missing threshold"),
            AttributesError::MissingLimit => String::from_str("Signature missing limi"),
            AttributesError::MissingIdentifier => String::from_str("Signature missing identifier"),
            AttributesError::MissingThresholdData => String::from_str(
                "Signature missing threshold data",
            ),
            AttributesError::InvalidAttributeName(s) => join("Invalid attribute name ", s.as_str()),
            AttributesError::InvalidAttributeValue(v) => {
                let n = decimal_string(*v as u64);
                join("Invalid attribute value ", n.as_str())
            },
        }
    }
}

impl SharesError {
    /// The error's message.
    pub fn to_string(&self) -> (r: String)
        ensures
            r@ == shares_error_text(*self),
    {
        match self {
            SharesError::TooManyShares => String::from_str("Threshold signature has too many shares"),
            SharesError::MissingShareData => String::from_str("Missing share data"),
            SharesError::MissingShareType => String::from_str("Missing share type"),
            SharesError::InvalidSchemeTypeId(v) => {
                let n = decimal_string(*v as u64);
                join("Invalid signature scheme type id ", n.as_str())
            },
            SharesError::InvalidShareTypeName(s) => join("Invalid share type name ", s.as_str()),
            SharesError::NotASignatureShare => String::from_str("Not a signature share"),
            SharesError::IsASignatureShare => String::from_str("Is a signature share"),
            SharesError::ShareTypeMismatch => String::from_str("Signature share type mismatch"),
            SharesError::ShareCombineFailed(s) => join(
                "Signature share combine failed: ",
                s.as_str(),
            ),
            SharesError::NotEnoughShares => String::from_str(
                "Not enough shares to reconstruct the signature",
            ),
            SharesError::MetaEncryption(s) => join("Threshold metadata error: ", s.as_str()),
            SharesError::MissingMetaKey => String::from_str("Missing threshold metadata key"),
        }
    }
}

impl SshError {
    /// The error's message: a prefix naming the kind of SSH error, then the
    /// outside error's `Display`.
    pub fn to_string(&self) -> (r: String)
        ensures
            match self {
                SshError::Sig(e) => exists|t: String|
                    to_string_from_display_ensures(e, t) && r@ == "SSH Sig error: "@ + t@,
                SshError::SigLabel(e) => exists|t: String|
                    to_string_from_display_ensures(e, t) && r@ == "SSH Sig label error: "@ + t@,
            },
    {
        match self {
            SshError::Sig(e) => {
                let t = e.to_string();
                join("SSH Sig error: ", t.as_str())
            },
            SshError::SigLabel(e) => {
                let t = e.to_string();
                join("SSH Sig label error: ", t.as_str())
            },
        }
    }
}

impl Error {
    /// The name of the error's kind.
    pub fn kind(&self) -> (r: &'static str)
        ensures
            r@ == error_kind(*self),
    {
        match self {
            Self::Attributes(_) => "Attributes",
            Self::Shares(_) => "Shares",
            Self::Conversions(_) => "Conversions",
            Self::Multibase(_) => "Multibase",
            Self::Multicodec(_) => "Multicodec",
            Self::Multitrait(_) => "Multitrait",
            Self::Multiutil(_) => "Multiutil",
            Self::Fmt(_) => "Fmt",
            Self::Utf8(_) => "Utf8",
            Self::Vsss(_) => "Vsss",
            Self::MissingSigil => "MissingSigil",
            Self::DuplicateAttribute(_) => "DuplicateAttribute",
            Self::FailedConversion(_) => "FailedConversion",
            Self::UnsupportedAlgorithm(_) => "UnsupportedAlgorithm",
        }
    }

    /// The error's message; an error that wraps an outside error shows that
    /// error's `Display`.
    pub fn to_string(&self) -> (r: String)
        ensures
            error_text(*self) matches Some(t) ==> r@ == t,
            self matches Error::Multibase(e) ==> to_string_from_display_ensures(e, r),
            self matches Error::Multitrait(e) ==> to_string_from_display_ensures(e, r),
            self matches Error::Fmt(e) ==> to_string_from_display_ensures(e, r),
            self matches Error::Utf8(e) ==> to_string_from_display_ensures(e, r),
            self matches Error::Conversions(ConversionsError::Ssh(SshError::Sig(e))) ==> exists|
                t: String,
            | to_string_from_display_ensures(e, t) && r@ == "SSH Sig error: "@ + t@,
            self matches Error::Conversions(ConversionsError::Ssh(SshError::SigLabel(e))) ==> exists|
                t: String,
            | to_string_from_display_ensures(e, t) && r@ == "SSH Sig label error: "@ + t@,
    {
        match self {
            Self::Attributes(a) => a.to_string(),
            Self::Shares(s) => s.to_string(),
            Self::Conversions(ConversionsError::Ssh(s)) => s.to_string(),
            Self::Multibase(e) => e.to_string(),
            Self::Multicodec(s) => String::from_str(s.as_str()),
            Self::Multitrait(e) => e.to_string(),
            Self::Multiutil(s) => String::from_str(s.as_str()),
            Self::Fmt(e) => e.to_string(),
            Self::Utf8(e) => e.to_string(),
            Self::Vsss(s) => join("Vsss share error: ", s.as_str()),
            Self::MissingSigil => String::from_str("Missing Multisig sigil"),
            Self::DuplicateAttribute(v) => {
                let n = decimal_string(*v as u64);
                join("Duplicate Multikey attribute: ", n.as_str())
            },
            Self::FailedConversion(s) => join("Failed Varsig conversion: ", s.as_str()),
            Self::UnsupportedAlgorithm(s) => join("Unsupported signature codec: ", s.as_str()),
        }
    }
}

impl From<AttributesError> for Error {
    fn from(e: AttributesError) -> (r: Self) {
        Error::Attributes(e)
    }
}

impl FromSpecImpl<AttributesError> for Error {
    open spec fn obeys_from_spec() -> bool {
        true
    }

    open spec fn from_spec(v: AttributesError) -> Self {
        Error::Attributes(v)
    }
}

impl From<SharesError> for Error {
    fn from(e: SharesError) -> (r: Self) {
        Error::Shares(e)
    }
}

impl FromSpecImpl<SharesError> for Error {
    open spec fn obeys_from_spec() -> bool {
        true
    }

    open spec fn from_spec(v: SharesError) -> Self {
        Error::Shares(v)
    }
}

impl From<ConversionsError> for Error {
    fn from(e: ConversionsError) -> (r: Self) {
        Error::Conversions(e)
    }
}

impl FromSpecImpl<ConversionsError> for Error {
    open spec fn obeys_from_spec() -> bool {
        true
    }

    open spec fn from_spec(v: ConversionsError) -> Self {
        Error::Conversions(v)
    }
}

impl From<SshError> for ConversionsError {
    fn from(e: SshError) -> (r: Self) {
        ConversionsError::Ssh(e)
    }
}

impl FromSpecImpl<SshError> for ConversionsError {
    open spec fn obeys_from_spec() -> bool {
        true
    }

    open spec fn from_spec(v: SshError) -> Self {
        ConversionsError::Ssh(v)
    }
}

impl From<SshKeyError> for SshError {
    fn from(e: SshKeyError) -> (r: Self) {
        SshError::Sig(e)
    }
}

impl FromSpecImpl<SshKeyError> for SshError {
    open spec fn obeys_from_spec() -> bool {
        true
    }

    open spec fn from_spec(v: SshKeyError) -> Self {
        SshError::Sig(v)
    }
}

impl From<LabelError> for SshError {
    fn from(e: LabelError) -> (r: Self) {
        SshError::SigLabel(e)
    }
}

impl FromSpecImpl<LabelError> for SshError {
    open spec fn obeys_from_spec() -> bool {
        true
    }

    open spec fn from_spec(v: LabelError) -> Self {
        SshError::SigLabel(v)
    }
}

} // verus!
