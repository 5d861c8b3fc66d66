use multi_sig::error::{AttributesError, ConversionsError, SshError};
use multi_sig::views::mayo::MayoView;
use multi_sig::views::nist_p::{self, NistPView, ES256_MSIG, ES384_MSIG, ES521_MSIG};
use multi_sig::views::rsa::{self, RsaView};
use multi_sig::views::{AttrView, ConvView, DataView};
use multi_sig::{AttrId, Error, Multisig};
use std::collections::BTreeMap;

fn multisig(codec: u64, sig: Option<Vec<u8>>, encoding: Option<Vec<u8>>) -> Multisig {
    let mut attributes = BTreeMap::new();
    if let Some(s) = sig {
        attributes.insert(AttrId::SigData.code(), s);
    }
    if let Some(e) = encoding {
        attributes.insert(AttrId::PayloadEncoding.code(), e);
    }
    Multisig {
        codec,
        message: Vec::new(),
        attributes,
    }
}

fn other_name(sig: &ssh_key::Signature) -> String {
    match sig.algorithm() {
        ssh_key::Algorithm::Other(name) => name.as_str().to_string(),
        a => panic!("unexpected algorithm {a:?}"),
    }
}

#[test]
fn nist_p_algorithm_names() {
    assert_eq!(nist_p::algorithm_name(ES256_MSIG), "ecdsa-sha2-nistp256@multisig");
    assert_eq!(nist_p::algorithm_name(ES384_MSIG), "ecdsa-sha2-nistp384@multisig");
    assert_eq!(nist_p::algorithm_name(ES521_MSIG), "ecdsa-sha2-nistp521@multisig");
    assert_eq!(nist_p::algorithm_name(0xd01300), "ecdsa@multisig");
    assert_eq!(rsa::algorithm_name(), "rsa-sha256@multisig");
}

#[test]
fn nist_p_to_ssh_signature_carries_bytes_and_name() {
    for (codec, name) in [
        (ES256_MSIG, "ecdsa-sha2-nistp256@multisig"),
        (ES384_MSIG, "ecdsa-sha2-nistp384@multisig"),
        (ES521_MSIG, "ecdsa-sha2-nistp521@multisig"),
    ] {
        let ms = multisig(codec, Some(vec![1, 2, 3, 4]), None);
        let sig = NistPView::new(&ms).to_ssh_signature().unwrap();
        assert_eq!(other_name(&sig), name);
        assert_eq!(sig.as_bytes(), &[1, 2, 3, 4]);
    }
}

#[test]
fn rsa_to_ssh_signature_carries_bytes_and_name() {
    let ms = multisig(0xd0130b, Some(vec![9; 256]), None);
    let sig = RsaView::new(&ms).to_ssh_signature().unwrap();
    assert_eq!(other_name(&sig), "rsa-sha256@multisig");
    assert_eq!(sig.as_bytes(), &[9u8; 256][..]);
}

#[test]
fn to_ssh_signature_without_signature_data() {
    let ms = multisig(ES256_MSIG, None, None);
    let e = NistPView::new(&ms).to_ssh_signature().unwrap_err();
    assert!(matches!(e, Error::Attributes(AttributesError::MissingSignature)));
    let e = RsaView::new(&ms).to_ssh_signature().unwrap_err();
    assert!(matches!(e, Error::Attributes(AttributesError::MissingSignature)));
}

#[test]
fn to_ssh_signature_with_empty_signature_data() {
    let ms = multisig(ES384_MSIG, Some(Vec::new()), None);
    let e = NistPView::new(&ms).to_ssh_signature().unwrap_err();
    assert!(matches!(
        e,
        Error::Conversions(ConversionsError::Ssh(SshError::Sig(_)))
    ));
    assert_eq!(e.kind(), "Conversions");
}

#[test]
fn mayo_has_no_ssh_form() {
    let ms = multisig(0xd0131d, Some(vec![1, 2, 3]), None);
    match MayoView::new(&ms).to_ssh_signature() {
        Err(Error::UnsupportedAlgorithm(m)) => {
            assert_eq!(m, "MAYO not supported in SSH signature format")
        }
        _ => panic!("expected UnsupportedAlgorithm"),
    }
}

#[test]
fn sig_bytes_and_payload_encoding() {
    let ms = multisig(ES256_MSIG, Some(vec![5, 6]), Some(vec![0x55]));
    let v = NistPView::new(&ms);
    assert_eq!(v.sig_bytes().unwrap(), vec![5, 6]);
    assert_eq!(v.payload_encoding().unwrap(), 0x55);
    assert_eq!(v.scheme().unwrap(), 0);
    let m = MayoView::new(&ms);
    assert_eq!(m.sig_bytes().unwrap(), vec![5, 6]);
    assert_eq!(m.scheme().unwrap(), 0);
    let r = RsaView::new(&ms);
    assert_eq!(r.payload_encoding().unwrap(), 0x55);
}

#[test]
fn missing_attributes_are_reported() {
    let ms = multisig(ES256_MSIG, None, None);
    let v = RsaView::new(&ms);
    assert!(matches!(
        v.sig_bytes(),
        Err(Error::Attributes(AttributesError::MissingSignature))
    ));
    assert!(matches!(
        v.payload_encoding(),
        Err(Error::Attributes(AttributesError::MissingPayloadEncoding))
    ));
    let m = MayoView::new(&ms);
    assert!(matches!(
        m.payload_encoding(),
        Err(Error::Attributes(AttributesError::MissingPayloadEncoding))
    ));
}

#[test]
fn payload_encoding_decodes_one_varint() {
    let ms = multisig(ES256_MSIG, None, Some(vec![0x80, 0x40]));
    assert_eq!(NistPView::new(&ms).payload_encoding().unwrap(), 0x2000);
    let ms = multisig(ES256_MSIG, None, Some(vec![0xa0, 0xe4, 0x34]));
    assert_eq!(MayoView::new(&ms).payload_encoding().unwrap(), 0xd3220);
}

#[test]
fn payload_encoding_refuses_bad_varints() {
    for bytes in [vec![], vec![0x80], vec![0x80, 0x00]] {
        let ms = multisig(ES256_MSIG, None, Some(bytes));
        match RsaView::new(&ms).payload_encoding() {
            Err(Error::Multicodec(m)) => assert_eq!(m, "failed to decode unsigned varint"),
            _ => panic!("expected a varint error"),
        }
    }
}

#[test]
fn payload_encoding_refuses_trailing_bytes() {
    let ms = multisig(ES256_MSIG, None, Some(vec![0x55, 0x01, 0x02]));
    match NistPView::new(&ms).payload_encoding() {
        Err(Error::Multicodec(m)) => assert!(m.starts_with(
            "trailing data after codec varint: 1 byte(s) consumed, 2 byte(s) left\n"
        )),
        _ => panic!("expected a trailing data error"),
    }
}
