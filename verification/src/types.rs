//! Type-safe wrappers for signature components.

use crate::text::{hex_lower, hex_string};
use vstd::prelude::*;
use vstd::std_specs::convert::{FromSpec, FromSpecImpl};

verus! {

/// A cryptographic signature: the raw signature bytes.
#[derive(Clone, Debug, Eq, PartialEq)]
pub struct SignatureBytes(Vec<u8>);

impl View for SignatureBytes {
    type V = Seq<u8>;

    closed spec fn view(&self) -> Seq<u8> {
        self.0@
    }
}

impl SignatureBytes {
    /// Create a new `SignatureBytes` holding `bytes`.
    pub fn new(bytes: Vec<u8>) -> (r: Self)
        ensures
            r@ == bytes@,
    {
        Self(bytes)
    }

    /// The signature as a byte slice.
    pub fn as_bytes(&self) -> (r: &[u8])
        ensures
            r@ == self@,
    {
        self.0.as_slice()
    }

    /// The signature's length in bytes.
    pub fn len(&self) -> (r: usize)
        ensures
            r == self@.len(),
    {
        self.0.len()
    }

    /// Whether the signature holds no bytes.
    pub fn is_empty(&self) -> (r: bool)
        ensures
            r <==> self@.len() == 0,
    {
        self.0.len() == 0
    }

    /// The signature bytes, giving up the wrapper.
    pub fn into_bytes(self) -> (r: Vec<u8>)
        ensures
            r@ == self@,
    {
        self.0
    }

    /// The signature as a byte slice.
    pub fn as_ref(&self) -> (r: &[u8])
        ensures
            r@ == self@,
    {
        self.0.as_slice()
    }

    /// The signature in lowercase hexadecimal, two digits per byte.
    pub fn to_string(&self) -> (r: String)
        ensures
            r@ == hex_lower(self@),
    {
        hex_string(self.0.as_slice())
    }
}

impl From<Vec<u8>> for SignatureBytes {
    fn from(bytes: Vec<u8>) -> (r: Self)
        ensures
            r@ == bytes@,
    {
        Self(bytes)
    }
}

impl FromSpecImpl<Vec<u8>> for SignatureBytes {
    open spec fn obeys_from_spec() -> bool {
        true
    }

    closed spec fn from_spec(v: Vec<u8>) -> Self {
        Self(v)
    }
}

impl From<SignatureBytes> for Vec<u8> {
    fn from(sig: SignatureBytes) -> (r: Vec<u8>)
        ensures
            r@ == sig@,
    {
        sig.0
    }
}

impl FromSpecImpl<SignatureBytes> for Vec<u8> {
    open spec fn obeys_from_spec() -> bool {
        true
    }

    closed spec fn from_spec(v: SignatureBytes) -> Self {
        v.0
    }
}

/// Wrapping bytes in a `SignatureBytes` and taking them out again gives the
/// same bytes, and the wrapper holds exactly the bytes it was made of.
pub proof fn lemma_signature_bytes_roundtrip(bytes: Vec<u8>)
    ensures
        <SignatureBytes as FromSpec<Vec<u8>>>::from_spec(bytes)@ == bytes@,
        <Vec<u8> as FromSpec<SignatureBytes>>::from_spec(
            <SignatureBytes as FromSpec<Vec<u8>>>::from_spec(bytes),
        ) == bytes,
{
}

} // verus!
