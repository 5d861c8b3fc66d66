use multi_sig::error::{AttributesError, SharesError};
use multi_sig::Error;

fn assert_send<T: Send>() {}

fn assert_sync<T: Sync>() {}

#[test]
fn test_error_kind() {
    let err = Error::MissingSigil;
    assert_eq!(err.kind(), "MissingSigil");

    let err = Error::DuplicateAttribute(42);
    assert_eq!(err.kind(), "DuplicateAttribute");
}

#[test]
fn test_error_display() {
    let err = Error::MissingSigil;
    assert!(err.to_string().contains("sigil"));

    let err = Error::UnsupportedAlgorithm("test".to_string());
    assert!(err.to_string().contains("test"));
}

#[test]
fn test_error_is_send_sync() {
    assert_send::<Error>();
    assert_sync::<Error>();
}

#[test]
fn error_kinds_name_every_variant() {
    assert_eq!(Error::Attributes(AttributesError::MissingScheme).kind(), "Attributes");
    assert_eq!(Error::Shares(SharesError::TooManyShares).kind(), "Shares");
    assert_eq!(Error::Multicodec("x".to_string()).kind(), "Multicodec");
    assert_eq!(Error::Multiutil("x".to_string()).kind(), "Multiutil");
    assert_eq!(Error::Vsss("x".to_string()).kind(), "Vsss");
    assert_eq!(Error::FailedConversion("x".to_string()).kind(), "FailedConversion");
    assert_eq!(Error::UnsupportedAlgorithm("x".to_string()).kind(), "UnsupportedAlgorithm");
    assert_eq!(Error::Fmt(std::fmt::Error).kind(), "Fmt");
}

#[test]
fn error_messages_are_exact() {
    assert_eq!(Error::MissingSigil.to_string(), "Missing Multisig sigil");
    assert_eq!(
        Error::DuplicateAttribute(42).to_string(),
        "Duplicate Multikey attribute: 42"
    );
    assert_eq!(Error::Vsss("bad".to_string()).to_string(), "Vsss share error: bad");
    assert_eq!(
        Error::FailedConversion("v".to_string()).to_string(),
        "Failed Varsig conversion: v"
    );
    assert_eq!(
        Error::UnsupportedAlgorithm("test".to_string()).to_string(),
        "Unsupported signature codec: test"
    );
    assert_eq!(Error::Fmt(std::fmt::Error).to_string(), std::fmt::Error.to_string());
}

#[test]
fn attributes_error_messages_are_exact() {
    assert_eq!(
        Error::Attributes(AttributesError::UnsupportedCodec(0xd01308)).to_string(),
        "Unsupported signature codec: 13636360"
    );
    assert_eq!(
        AttributesError::MissingSignature.to_string(),
        "Signature data missing"
    );
    assert_eq!(
        AttributesError::MissingPayloadEncoding.to_string(),
        "Signature missing payload encoding"
    );
    assert_eq!(AttributesError::MissingLimit.to_string(), "Signature missing limi");
    assert_eq!(
        AttributesError::InvalidAttributeValue(255).to_string(),
        "Invalid attribute value 255"
    );
    assert_eq!(
        AttributesError::InvalidAttributeName("foo".to_string()).to_string(),
        "Invalid attribute name foo"
    );
}

#[test]
fn shares_error_messages_are_exact() {
    assert_eq!(
        SharesError::InvalidSchemeTypeId(0).to_string(),
        "Invalid signature scheme type id 0"
    );
    assert_eq!(
        Error::Shares(SharesError::NotEnoughShares).to_string(),
        "Not enough shares to reconstruct the signature"
    );
    assert_eq!(
        SharesError::ShareCombineFailed("x".to_string()).to_string(),
        "Signature share combine failed: x"
    );
    assert_eq!(
        SharesError::MissingMetaKey.to_string(),
        "Missing threshold metadata key"
    );
}

#[test]
fn errors_convert_into_error() {
    let e: Error = AttributesError::MissingThreshold.into();
    assert!(matches!(e, Error::Attributes(AttributesError::MissingThreshold)));
    let e: Error = SharesError::MissingMetaKey.into();
    assert!(matches!(e, Error::Shares(SharesError::MissingMetaKey)));
}
