use chacha20poly1305::aead::{Aead, KeyInit, Payload};
use ciborium::Value;
use multi_sig::error::{AttributesError, SharesError};
use multi_sig::views::threshold_meta::{
    decrypt_threshold_meta, disclosure_mode, encrypt_threshold_meta,
    encrypt_threshold_meta_with_nonce, read_threshold_params,
    stamp_disclosure_attrs, DisclosureView, CHACHA20_POLY1305_CODE,
};
use multi_sig::views::ThresholdDisclosureView;
use multi_sig::{AttrId, Error, Multisig, ThresholdDisclosure, ThresholdMetaCipher, ThresholdMetadata};
use std::collections::BTreeMap;

const KEY: [u8; 32] = [7u8; 32];
const OTHER_KEY: [u8; 32] = [8u8; 32];

fn cbor(v: &Value) -> Vec<u8> {
    let mut buf = Vec::new();
    ciborium::into_writer(v, &mut buf).unwrap();
    buf
}

fn text(s: &str) -> Value {
    Value::Text(s.to_string())
}

fn uint(n: u64) -> Value {
    Value::Integer(n.into())
}

fn share() -> Multisig {
    let mut attributes = BTreeMap::new();
    attributes.insert(AttrId::SigData.code(), vec![1, 2, 3]);
    attributes.insert(AttrId::ShareIdentifier.code(), vec![4]);
    Multisig {
        codec: 0xd01305,
        message: Vec::new(),
        attributes,
    }
}

fn is_meta_encryption(r: &Result<(usize, usize), Error>) -> bool {
    matches!(r, Err(Error::Shares(SharesError::MetaEncryption(_))))
}

#[test]
fn disclosure_names_and_codes() {
    assert_eq!(ThresholdDisclosure::Full.as_str(), "full");
    assert_eq!(ThresholdDisclosure::Partial.as_str(), "partial");
    assert_eq!(
        ThresholdDisclosure::FullConfidentialial.as_str(),
        "full-confidentialial"
    );
    assert_eq!(ThresholdDisclosure::Partial.to_string(), "partial");
    assert_eq!(u8::from(ThresholdDisclosure::Full), 0);
    assert_eq!(u8::from(ThresholdDisclosure::Partial), 1);
    assert_eq!(u8::from(ThresholdDisclosure::FullConfidentialial), 2);
}

#[test]
fn disclosure_code_roundtrip() {
    for mode in [
        ThresholdDisclosure::Full,
        ThresholdDisclosure::Partial,
        ThresholdDisclosure::FullConfidentialial,
    ] {
        assert_eq!(ThresholdDisclosure::try_from(u8::from(mode)).unwrap(), mode);
        let bytes = mode.encode_into();
        assert_eq!(bytes, vec![u8::from(mode)]);
        let mut more = bytes.clone();
        more.push(0xaa);
        let (back, rest) = ThresholdDisclosure::try_decode_from(&more).unwrap();
        assert_eq!(back, mode);
        assert_eq!(rest, &[0xaa]);
    }
}

#[test]
fn invalid_disclosure_code() {
    match ThresholdDisclosure::try_from(3u8) {
        Err(Error::Shares(SharesError::MetaEncryption(m))) => {
            assert_eq!(m, "invalid disclosure mode: 3")
        }
        _ => panic!("expected an invalid mode"),
    }
    assert!(matches!(
        ThresholdDisclosure::try_decode_from(&[0x80]),
        Err(Error::Multitrait(_))
    ));
    assert!(matches!(
        ThresholdDisclosure::try_decode_from(&[7]),
        Err(Error::Shares(SharesError::MetaEncryption(_)))
    ));
}

#[test]
fn metadata_constructors() {
    let m = ThresholdMetadata::new(3, 5);
    assert_eq!(m.threshold, Some(3));
    assert_eq!(m.limit, Some(5));
    let m = ThresholdMetadata::threshold_only(4);
    assert_eq!(m.threshold, Some(4));
    assert_eq!(m.limit, None);
}

#[test]
fn metadata_cbor_matches_ciborium() {
    let m = ThresholdMetadata::new(3, 300);
    let expected = cbor(&Value::Map(vec![
        (text("threshold"), uint(3)),
        (text("limit"), uint(300)),
    ]));
    assert_eq!(m.to_cbor_bytes().unwrap(), expected);

    let m = ThresholdMetadata::threshold_only(65535);
    let expected = cbor(&Value::Map(vec![
        (text("threshold"), uint(65535)),
        (text("limit"), Value::Null),
    ]));
    assert_eq!(m.to_cbor_bytes().unwrap(), expected);
}

#[test]
fn metadata_cbor_roundtrip() {
    for m in [
        ThresholdMetadata::new(0, 0),
        ThresholdMetadata::new(23, 24),
        ThresholdMetadata::new(255, 256),
        ThresholdMetadata::threshold_only(7),
        ThresholdMetadata::default(),
    ] {
        let b = m.to_cbor_bytes().unwrap();
        assert_eq!(ThresholdMetadata::from_cbor_bytes(&b).unwrap(), m);
    }
}

#[test]
fn metadata_cbor_rejects_other_bytes() {
    assert!(ThresholdMetadata::from_cbor_bytes(&[]).is_err());
    assert!(matches!(
        ThresholdMetadata::from_cbor_bytes(&[0x80]),
        Err(Error::Shares(SharesError::MetaEncryption(_)))
    ));
    // bytes after the map are not read
    let mut b = ThresholdMetadata::new(1, 2).to_cbor_bytes().unwrap();
    b.push(0);
    assert_eq!(
        ThresholdMetadata::from_cbor_bytes(&b).unwrap(),
        ThresholdMetadata::new(1, 2)
    );
}

#[test]
fn cipher_cbor_matches_ciborium() {
    let c = ThresholdMetaCipher::new(CHACHA20_POLY1305_CODE, vec![0, 1, 200, 255]);
    let expected = cbor(&Value::Map(vec![
        (text("cipher_codec"), uint(CHACHA20_POLY1305_CODE)),
        (
            text("nonce"),
            Value::Array(vec![uint(0), uint(1), uint(200), uint(255)]),
        ),
    ]));
    assert_eq!(c.to_cbor_bytes().unwrap(), expected);
}

#[test]
fn cipher_cbor_roundtrip() {
    for c in [
        ThresholdMetaCipher::new(CHACHA20_POLY1305_CODE, vec![9; 12]),
        ThresholdMetaCipher::new(0, Vec::new()),
        ThresholdMetaCipher::new(u64::MAX, vec![1; 30]),
    ] {
        let b = c.to_cbor_bytes().unwrap();
        assert_eq!(ThresholdMetaCipher::from_cbor_bytes(&b).unwrap(), c);
    }
    assert!(ThresholdMetaCipher::from_cbor_bytes(&[0xf6]).is_err());
}

#[test]
fn encrypt_then_decrypt() {
    let meta = ThresholdMetadata::new(3, 5);
    let (ct, ci) = encrypt_threshold_meta(&meta, &KEY).unwrap();
    assert_eq!(ci.cipher_codec, CHACHA20_POLY1305_CODE);
    assert_eq!(ci.nonce.len(), 12);
    assert_ne!(ct, meta.to_cbor_bytes().unwrap());
    assert_eq!(decrypt_threshold_meta(&ct, &ci, &KEY).unwrap(), meta);
    assert!(decrypt_threshold_meta(&ct, &ci, &OTHER_KEY).is_err());
}

#[test]
fn encrypt_rejects_short_key() {
    match encrypt_threshold_meta(&ThresholdMetadata::new(1, 2), &[0u8; 31]) {
        Err(Error::Shares(SharesError::MetaEncryption(m))) => {
            assert_eq!(m, "invalid key length: expected 32, got 31")
        }
        _ => panic!("expected a key length error"),
    }
}

#[test]
fn decrypt_rejects_other_cipher() {
    let meta = ThresholdMetadata::new(3, 5);
    let (ct, mut ci) = encrypt_threshold_meta(&meta, &KEY).unwrap();
    ci.cipher_codec = 0x55;
    assert!(matches!(
        decrypt_threshold_meta(&ct, &ci, &KEY),
        Err(Error::Shares(SharesError::MetaEncryption(_)))
    ));
}

#[test]
fn disclosure_defaults_to_full() {
    let ms = share();
    assert_eq!(disclosure_mode(&ms).unwrap(), ThresholdDisclosure::Full);
    let mut bad = share();
    bad.attributes.insert(AttrId::ThresholdDisclosure.code(), vec![9]);
    assert!(matches!(
        disclosure_mode(&bad),
        Err(Error::Shares(SharesError::MetaEncryption(_)))
    ));
}

#[test]
fn stamp_then_read_full() {
    let mut ms = share();
    stamp_disclosure_attrs(&mut ms.attributes, ThresholdDisclosure::Full, 3, 5, None).unwrap();
    assert_eq!(disclosure_mode(&ms).unwrap(), ThresholdDisclosure::Full);
    assert_eq!(read_threshold_params(&ms, None).unwrap(), (3, 5));
    assert_eq!(ms.attributes.get(&AttrId::Threshold.code()), Some(&vec![3]));
    assert_eq!(ms.attributes.get(&AttrId::Limit.code()), Some(&vec![5]));
    assert_eq!(ms.attributes.get(&AttrId::SigData.code()), Some(&vec![1, 2, 3]));
}

#[test]
fn stamp_full_writes_varints() {
    let mut ms = share();
    stamp_disclosure_attrs(&mut ms.attributes, ThresholdDisclosure::Full, 300, 70000, None)
        .unwrap();
    assert_eq!(
        ms.attributes.get(&AttrId::Threshold.code()),
        Some(&vec![0xac, 0x02])
    );
    assert_eq!(
        ms.attributes.get(&AttrId::Limit.code()),
        Some(&vec![0xf0, 0xa2, 0x04])
    );
    assert_eq!(read_threshold_params(&ms, None).unwrap(), (300, 70000));
}

#[test]
fn stamp_then_read_partial() {
    let mut ms = share();
    stamp_disclosure_attrs(&mut ms.attributes, ThresholdDisclosure::Partial, 3, 5, Some(&KEY))
        .unwrap();
    assert_eq!(disclosure_mode(&ms).unwrap(), ThresholdDisclosure::Partial);
    assert!(ms.attributes.get(&AttrId::Threshold.code()).is_none());
    assert_eq!(ms.attributes.get(&AttrId::Limit.code()), Some(&vec![5]));
    assert_eq!(read_threshold_params(&ms, Some(&KEY)).unwrap(), (3, 5));
    assert!(matches!(
        read_threshold_params(&ms, None),
        Err(Error::Shares(SharesError::MissingMetaKey))
    ));
    assert!(is_meta_encryption(&read_threshold_params(&ms, Some(&OTHER_KEY))));
}

#[test]
fn stamp_then_read_full_confidential() {
    let mut ms = share();
    stamp_disclosure_attrs(
        &mut ms.attributes,
        ThresholdDisclosure::FullConfidentialial,
        4,
        9,
        Some(&KEY),
    )
    .unwrap();
    assert_eq!(
        disclosure_mode(&ms).unwrap(),
        ThresholdDisclosure::FullConfidentialial
    );
    assert!(ms.attributes.get(&AttrId::Threshold.code()).is_none());
    assert!(ms.attributes.get(&AttrId::Limit.code()).is_none());
    assert_eq!(read_threshold_params(&ms, Some(&KEY)).unwrap(), (4, 9));
}

#[test]
fn encrypting_modes_keep_u16() {
    let mut ms = share();
    stamp_disclosure_attrs(
        &mut ms.attributes,
        ThresholdDisclosure::FullConfidentialial,
        65536 + 3,
        65536 + 5,
        Some(&KEY),
    )
    .unwrap();
    assert_eq!(read_threshold_params(&ms, Some(&KEY)).unwrap(), (3, 5));
}

#[test]
fn stamp_without_key_fails() {
    let mut ms = share();
    let before = ms.attributes.clone();
    let r = stamp_disclosure_attrs(&mut ms.attributes, ThresholdDisclosure::Partial, 3, 5, None);
    assert!(matches!(r, Err(Error::Shares(SharesError::MissingMetaKey))));
    assert_eq!(ms.attributes, before);
    let r = stamp_disclosure_attrs(
        &mut ms.attributes,
        ThresholdDisclosure::FullConfidentialial,
        3,
        5,
        Some(&[1u8; 16]),
    );
    assert!(matches!(r, Err(Error::Shares(SharesError::MetaEncryption(_)))));
}

#[test]
fn read_full_reports_missing_attributes() {
    let ms = share();
    assert!(matches!(
        read_threshold_params(&ms, None),
        Err(Error::Attributes(AttributesError::MissingThreshold))
    ));
    let mut ms = share();
    ms.attributes.insert(AttrId::Threshold.code(), vec![2]);
    assert!(matches!(
        read_threshold_params(&ms, None),
        Err(Error::Attributes(AttributesError::MissingLimit))
    ));
    ms.attributes.insert(AttrId::Limit.code(), vec![0x80]);
    assert!(matches!(
        read_threshold_params(&ms, None),
        Err(Error::Multiutil(_))
    ));
}

#[test]
fn read_encrypted_without_metadata() {
    let mut ms = share();
    ms.attributes.insert(AttrId::ThresholdDisclosure.code(), vec![2]);
    assert!(is_meta_encryption(&read_threshold_params(&ms, Some(&KEY))));
}

#[test]
fn convert_between_modes() {
    let mut full = share();
    stamp_disclosure_attrs(&mut full.attributes, ThresholdDisclosure::Full, 3, 5, None).unwrap();

    let partial = DisclosureView::new(&full)
        .to_disclosure(ThresholdDisclosure::Partial, Some(&KEY), None)
        .unwrap();
    assert_eq!(
        DisclosureView::new(&partial).disclosure_mode().unwrap(),
        ThresholdDisclosure::Partial
    );

    let confidential = DisclosureView::new(&partial)
        .to_disclosure(
            ThresholdDisclosure::FullConfidentialial,
            Some(&OTHER_KEY),
            Some(&KEY),
        )
        .unwrap();
    assert_eq!(
        DisclosureView::new(&confidential)
            .read_threshold_params(Some(&OTHER_KEY))
            .unwrap(),
        (3, 5)
    );

    let full_again = DisclosureView::new(&confidential)
        .to_disclosure(ThresholdDisclosure::Full, None, Some(&OTHER_KEY))
        .unwrap();
    assert_eq!(
        DisclosureView::new(&full_again)
            .read_threshold_params(None)
            .unwrap(),
        (3, 5)
    );
    assert_eq!(full_again.codec, full.codec);
    assert_eq!(
        full_again.attributes.get(&AttrId::SigData.code()),
        Some(&vec![1, 2, 3])
    );
    assert!(full_again
        .attributes
        .get(&AttrId::EncryptedThresholdMeta.code())
        .is_none());
}

#[test]
fn convert_needs_current_key() {
    let mut ms = share();
    stamp_disclosure_attrs(&mut ms.attributes, ThresholdDisclosure::Partial, 3, 5, Some(&KEY))
        .unwrap();
    assert!(matches!(
        DisclosureView::new(&ms).to_disclosure(ThresholdDisclosure::Full, None, None),
        Err(Error::Shares(SharesError::MissingMetaKey))
    ));
}

#[test]
fn encryption_nonces_are_random() {
    let meta = ThresholdMetadata::new(3, 5);
    let (ct1, ci1) = encrypt_threshold_meta(&meta, &KEY).unwrap();
    let (ct2, ci2) = encrypt_threshold_meta(&meta, &KEY).unwrap();
    assert_ne!(ci1.nonce, ci2.nonce);
    assert_ne!(ct1, ct2);
    assert_ne!(ci1.nonce, vec![0u8; 12]);
}

#[test]
fn decrypt_rejects_short_key() {
    let meta = ThresholdMetadata::new(3, 5);
    let (ct, ci) = encrypt_threshold_meta(&meta, &KEY).unwrap();
    match decrypt_threshold_meta(&ct, &ci, &KEY[..16]) {
        Err(Error::Shares(SharesError::MetaEncryption(m))) => {
            assert_eq!(m, "invalid key length: expected 32, got 16")
        }
        _ => panic!("expected a key length error"),
    }
}

#[test]
fn decrypt_names_unsupported_cipher() {
    let meta = ThresholdMetadata::new(3, 5);
    let (ct, mut ci) = encrypt_threshold_meta(&meta, &KEY).unwrap();
    ci.cipher_codec = CHACHA20_POLY1305_CODE + 1;
    match decrypt_threshold_meta(&ct, &ci, &KEY) {
        Err(Error::Shares(SharesError::MetaEncryption(m))) => {
            assert_eq!(m, "unsupported AEAD codec: 40961")
        }
        _ => panic!("expected an unsupported cipher error"),
    }
}

#[test]
fn encrypt_with_nonce_matches_chacha20poly1305() {
    let meta = ThresholdMetadata::threshold_only(11);
    let nonce = vec![3u8; 12];
    let (ct, ci) = encrypt_threshold_meta_with_nonce(&meta, &KEY, nonce.clone()).unwrap();
    assert_eq!(ci, ThresholdMetaCipher::new(CHACHA20_POLY1305_CODE, nonce.clone()));
    let cipher = chacha20poly1305::ChaCha20Poly1305::new_from_slice(&KEY).unwrap();
    let expected = cipher
        .encrypt(
            chacha20poly1305::Nonce::from_slice(&nonce),
            Payload {
                msg: &meta.to_cbor_bytes().unwrap(),
                aad: b"threshold-meta",
            },
        )
        .unwrap();
    assert_eq!(ct, expected);
    assert_eq!(decrypt_threshold_meta(&ct, &ci, &KEY).unwrap(), meta);
}

#[test]
fn encrypt_with_nonce_rejects_short_key() {
    match encrypt_threshold_meta_with_nonce(&ThresholdMetadata::new(1, 2), &[0u8; 33], vec![0; 12]) {
        Err(Error::Shares(SharesError::MetaEncryption(m))) => {
            assert_eq!(m, "invalid key length: expected 32, got 33")
        }
        _ => panic!("expected a key length error"),
    }
}

#[test]
fn decrypt_rejects_wrong_nonce_length() {
    let meta = ThresholdMetadata::new(3, 5);
    let (ct, _) = encrypt_threshold_meta(&meta, &KEY).unwrap();
    let ci = ThresholdMetaCipher::new(CHACHA20_POLY1305_CODE, vec![1; 11]);
    match decrypt_threshold_meta(&ct, &ci, &KEY) {
        Err(Error::Shares(SharesError::MetaEncryption(m))) => {
            assert_eq!(m, "invalid nonce length: expected 12, got 11")
        }
        _ => panic!("expected a nonce length error"),
    }
}

#[test]
fn read_with_wrong_stored_nonce_length_is_an_error() {
    let mut ms = share();
    stamp_disclosure_attrs(
        &mut ms.attributes,
        ThresholdDisclosure::FullConfidentialial,
        3,
        5,
        Some(&KEY),
    )
    .unwrap();
    let bad = ThresholdMetaCipher::new(CHACHA20_POLY1305_CODE, Vec::new());
    ms.attributes
        .insert(AttrId::ThresholdMetaCipher.code(), bad.to_cbor_bytes().unwrap());
    assert!(is_meta_encryption(&read_threshold_params(&ms, Some(&KEY))));
    assert!(matches!(
        DisclosureView::new(&ms).to_disclosure(ThresholdDisclosure::Full, None, Some(&KEY)),
        Err(Error::Shares(SharesError::MetaEncryption(_)))
    ));
}

#[test]
fn full_mode_read_ignores_key() {
    let mut ms = share();
    ms.attributes.insert(AttrId::Threshold.code(), vec![2]);
    ms.attributes.insert(AttrId::Limit.code(), vec![0x80]);
    for key in [None, Some(&KEY[..]), Some(&KEY[..3])] {
        match read_threshold_params(&ms, key) {
            Err(Error::Multiutil(m)) => assert_eq!(m, "Custom error: failed to decode varuint"),
            _ => panic!("expected a varint error"),
        }
    }
}

#[test]
fn metadata_decodes_other_layouts() {
    // keys in the other order
    let b = cbor(&Value::Map(vec![
        (text("limit"), uint(5)),
        (text("threshold"), uint(3)),
    ]));
    assert_eq!(
        ThresholdMetadata::from_cbor_bytes(&b).unwrap(),
        ThresholdMetadata::new(3, 5)
    );
    // a field left out, and an unknown field with a nested value
    let b = cbor(&Value::Map(vec![
        (
            text("extra"),
            Value::Array(vec![uint(1), Value::Map(vec![(text("x"), Value::Bool(true))])]),
        ),
        (text("threshold"), uint(300)),
    ]));
    assert_eq!(
        ThresholdMetadata::from_cbor_bytes(&b).unwrap(),
        ThresholdMetadata::threshold_only(300)
    );
    // an empty map
    assert_eq!(
        ThresholdMetadata::from_cbor_bytes(&[0xa0]).unwrap(),
        ThresholdMetadata::default()
    );
    // integers in a wider form than needed, `undefined`, and a tag
    let b = [
        0xa2, 0x69, b't', b'h', b'r', b'e', b's', b'h', b'o', b'l', b'd', 0x1a, 0, 0, 0, 7, 0x65,
        b'l', b'i', b'm', b'i', b't', 0xf7,
    ];
    assert_eq!(
        ThresholdMetadata::from_cbor_bytes(&b).unwrap(),
        ThresholdMetadata::threshold_only(7)
    );
    let mut tagged = vec![0xc6];
    tagged.extend_from_slice(&ThresholdMetadata::new(1, 2).to_cbor_bytes().unwrap());
    assert_eq!(
        ThresholdMetadata::from_cbor_bytes(&tagged).unwrap(),
        ThresholdMetadata::new(1, 2)
    );
}

#[test]
fn metadata_refuses_bad_layouts() {
    // a repeated field
    let b = cbor(&Value::Map(vec![
        (text("threshold"), uint(1)),
        (text("threshold"), uint(2)),
    ]));
    assert!(ThresholdMetadata::from_cbor_bytes(&b).is_err());
    // a value beyond u16
    let b = cbor(&Value::Map(vec![(text("limit"), uint(70000))]));
    assert!(ThresholdMetadata::from_cbor_bytes(&b).is_err());
    // not a map
    let b = cbor(&Value::Array(vec![uint(1), uint(2)]));
    assert!(ThresholdMetadata::from_cbor_bytes(&b).is_err());
    // a map cut short
    let b = ThresholdMetadata::new(1, 2).to_cbor_bytes().unwrap();
    assert!(ThresholdMetadata::from_cbor_bytes(&b[..b.len() - 1]).is_err());
}

#[test]
fn cipher_decodes_other_layouts() {
    let b = cbor(&Value::Map(vec![
        (text("nonce"), Value::Bytes(vec![1, 2, 3])),
        (text("other"), text("ignored")),
        (text("cipher_codec"), uint(CHACHA20_POLY1305_CODE)),
    ]));
    assert_eq!(
        ThresholdMetaCipher::from_cbor_bytes(&b).unwrap(),
        ThresholdMetaCipher::new(CHACHA20_POLY1305_CODE, vec![1, 2, 3])
    );
}

#[test]
fn cipher_refuses_missing_fields() {
    let b = cbor(&Value::Map(vec![(text("nonce"), Value::Bytes(vec![1]))]));
    match ThresholdMetaCipher::from_cbor_bytes(&b) {
        Err(Error::Shares(SharesError::MetaEncryption(m))) => {
            assert_eq!(m, "CBOR decode cipher: not a cipher parameters encoding")
        }
        _ => panic!("expected a decoding error"),
    }
    let b = cbor(&Value::Map(vec![(text("cipher_codec"), uint(1))]));
    assert!(ThresholdMetaCipher::from_cbor_bytes(&b).is_err());
}

#[test]
fn read_error_messages_are_exact() {
    let mut ms = share();
    stamp_disclosure_attrs(&mut ms.attributes, ThresholdDisclosure::Partial, 3, 5, Some(&KEY))
        .unwrap();
    match read_threshold_params(&ms, Some(&OTHER_KEY)) {
        Err(Error::Shares(SharesError::MetaEncryption(m))) => {
            assert_eq!(m, "Threshold metadata error: AEAD open: aead::Error")
        }
        _ => panic!("expected a decryption error"),
    }
    match read_threshold_params(&ms, Some(&KEY[..5])) {
        Err(Error::Shares(SharesError::MetaEncryption(m))) => assert_eq!(
            m,
            "Threshold metadata error: invalid key length: expected 32, got 5"
        ),
        _ => panic!("expected a key length error"),
    }
    let mut bad = share();
    bad.attributes.insert(AttrId::ThresholdDisclosure.code(), vec![9]);
    match disclosure_mode(&bad) {
        Err(Error::Shares(SharesError::MetaEncryption(m))) => assert_eq!(
            m,
            "Threshold metadata error: invalid disclosure mode: 9"
        ),
        _ => panic!("expected an invalid mode error"),
    }
    bad.attributes.insert(AttrId::ThresholdDisclosure.code(), vec![0x80]);
    match DisclosureView::new(&bad).disclosure_mode() {
        Err(Error::Shares(SharesError::MetaEncryption(m))) => {
            assert_eq!(m, "failed to decode unsigned varint")
        }
        _ => panic!("expected a varint error"),
    }
    let mut missing = share();
    missing.attributes.insert(AttrId::ThresholdDisclosure.code(), vec![2]);
    match DisclosureView::new(&missing).to_disclosure(ThresholdDisclosure::Full, None, Some(&KEY)) {
        Err(Error::Shares(SharesError::MetaEncryption(m))) => {
            assert_eq!(m, "missing EncryptedThresholdMeta")
        }
        _ => panic!("expected a missing metadata error"),
    }
}

fn with_text(out: &mut Vec<u8>, t: &str) {
    out.push(0x60 + t.len() as u8);
    out.extend_from_slice(t.as_bytes());
}

#[test]
fn metadata_decodes_indefinite_lengths() {
    let mut b = vec![0xbf];
    with_text(&mut b, "limit");
    b.push(5);
    with_text(&mut b, "threshold");
    b.push(3);
    b.push(0xff);
    assert_eq!(
        ThresholdMetadata::from_cbor_bytes(&b).unwrap(),
        ThresholdMetadata::new(3, 5)
    );
    // an unknown entry whose value has indefinite length
    let mut b = vec![0xa2];
    with_text(&mut b, "foo");
    b.extend_from_slice(&[0x9f, 0x01, 0x5f, 0x41, 0x00, 0xff, 0xff]);
    with_text(&mut b, "threshold");
    b.push(4);
    assert_eq!(
        ThresholdMetadata::from_cbor_bytes(&b).unwrap(),
        ThresholdMetadata::threshold_only(4)
    );
    // a map of indefinite length without its break
    let mut b = vec![0xbf];
    with_text(&mut b, "limit");
    b.push(5);
    assert!(ThresholdMetadata::from_cbor_bytes(&b).is_err());
}

#[test]
fn cipher_decodes_indefinite_lengths() {
    let mut b = vec![0xbf];
    with_text(&mut b, "cipher_codec");
    b.extend_from_slice(&[0x19, 0xa0, 0x00]);
    with_text(&mut b, "nonce");
    b.extend_from_slice(&[0x5f, 0x42, 1, 2, 0x41, 3, 0xff]);
    b.push(0xff);
    assert_eq!(
        ThresholdMetaCipher::from_cbor_bytes(&b).unwrap(),
        ThresholdMetaCipher::new(CHACHA20_POLY1305_CODE, vec![1, 2, 3])
    );
    let mut b = vec![0xa2];
    with_text(&mut b, "nonce");
    b.extend_from_slice(&[0x9f, 0x07, 0x18, 0xff, 0xff]);
    with_text(&mut b, "cipher_codec");
    b.push(1);
    assert_eq!(
        ThresholdMetaCipher::from_cbor_bytes(&b).unwrap(),
        ThresholdMetaCipher::new(1, vec![7, 255])
    );
}

#[test]
fn integers_may_be_unsigned_bignums() {
    let mut b = vec![0xa1];
    with_text(&mut b, "threshold");
    b.extend_from_slice(&[0xc2, 0x42, 0x01, 0x00]);
    assert_eq!(
        ThresholdMetadata::from_cbor_bytes(&b).unwrap(),
        ThresholdMetadata::threshold_only(256)
    );
    // seventeen bytes, the first a leading zero, behind an unrelated tag
    let mut b = vec![0xa1];
    with_text(&mut b, "limit");
    b.extend_from_slice(&[0xc6, 0xc2, 0x51]);
    b.extend_from_slice(&[0u8; 16]);
    b.push(5);
    assert_eq!(
        ThresholdMetadata::from_cbor_bytes(&b).unwrap(),
        ThresholdMetadata {
            threshold: None,
            limit: Some(5)
        }
    );
    // a negative bignum is refused
    let mut b = vec![0xa1];
    with_text(&mut b, "limit");
    b.extend_from_slice(&[0xc3, 0x41, 0x01]);
    assert!(ThresholdMetadata::from_cbor_bytes(&b).is_err());
    // a cipher code of 2^64 is refused, one below it read
    let mut b = vec![0xa2];
    with_text(&mut b, "cipher_codec");
    b.extend_from_slice(&[0xc2, 0x49, 1, 0, 0, 0, 0, 0, 0, 0, 0]);
    with_text(&mut b, "nonce");
    b.push(0x80);
    assert!(ThresholdMetaCipher::from_cbor_bytes(&b).is_err());
    let mut b = vec![0xa2];
    with_text(&mut b, "cipher_codec");
    b.extend_from_slice(&[0xc2, 0x48, 0xff, 0xff, 0xff, 0xff, 0xff, 0xff, 0xff, 0xff]);
    with_text(&mut b, "nonce");
    b.push(0x80);
    assert_eq!(
        ThresholdMetaCipher::from_cbor_bytes(&b).unwrap(),
        ThresholdMetaCipher::new(u64::MAX, vec![])
    );
}

#[test]
fn stamp_key_errors_are_exact() {
    let mut ms = share();
    match stamp_disclosure_attrs(
        &mut ms.attributes,
        ThresholdDisclosure::Partial,
        3,
        5,
        Some(&KEY[..31]),
    ) {
        Err(Error::Shares(SharesError::MetaEncryption(m))) => assert_eq!(
            m,
            "Threshold metadata error: invalid key length: expected 32, got 31"
        ),
        _ => panic!("expected a key length error"),
    }
}

#[test]
fn full_stamp_forgets_earlier_stamps() {
    let mut a = share();
    stamp_disclosure_attrs(
        &mut a.attributes,
        ThresholdDisclosure::FullConfidentialial,
        9,
        11,
        Some(&KEY),
    )
    .unwrap();
    stamp_disclosure_attrs(&mut a.attributes, ThresholdDisclosure::Full, 3, 5, Some(&KEY)).unwrap();
    let mut b = share();
    stamp_disclosure_attrs(&mut b.attributes, ThresholdDisclosure::Full, 3, 5, None).unwrap();
    assert_eq!(a.attributes, b.attributes);
    stamp_disclosure_attrs(&mut a.attributes, ThresholdDisclosure::Full, 3, 5, None).unwrap();
    assert_eq!(a.attributes, b.attributes);
}
