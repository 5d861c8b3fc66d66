use multi_sig::SignatureBytes;

#[test]
fn test_signature_bytes_new() {
    let sig = SignatureBytes::new(vec![1, 2, 3]);
    assert_eq!(sig.as_bytes(), &[1, 2, 3]);
}

#[test]
fn test_signature_bytes_len() {
    let sig = SignatureBytes::new(vec![0u8; 64]);
    assert_eq!(sig.len(), 64);
}

#[test]
fn test_signature_bytes_is_empty() {
    let empty = SignatureBytes::new(vec![]);
    assert!(empty.is_empty());

    let sig = SignatureBytes::new(vec![1]);
    assert!(!sig.is_empty());
}

#[test]
fn test_signature_bytes_conversions() {
    let bytes = vec![1, 2, 3, 4];
    let sig = SignatureBytes::from(bytes.clone());
    let back: Vec<u8> = sig.into_bytes();
    assert_eq!(back, bytes);
}

#[test]
fn test_signature_bytes_as_ref() {
    let sig = SignatureBytes::new(vec![1, 2, 3]);
    let slice: &[u8] = sig.as_ref();
    assert_eq!(slice, &[1, 2, 3]);
}

#[test]
fn test_signature_bytes_display() {
    let sig = SignatureBytes::new(vec![0xDE, 0xAD]);
    assert_eq!(sig.to_string(), "dead");
}
