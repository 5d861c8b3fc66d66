//! The MAYO view of a Multisig: a post-quantum multivariate signature,
//! which has no OpenSSH form.

use crate::attrid::AttrId;
use crate::error::{AttributesError, Error};
use crate::ms::{attr_view, Multisig};
use crate::views::threshold_meta::attr_bytes;
use crate::views::{payload_encoding_attr, payload_encoding_result, sig_data_attr};
use crate::views::{AttrView, ConvView, DataView};
use vstd::prelude::*;
use vstd::std_specs::convert::TryFromSpecImpl;

verus! {

/// The message of the error that refuses an OpenSSH form of a MAYO
/// signature.
pub open spec fn mayo_ssh_refusal() -> Seq<char> {
    "MAYO not supported in SSH signature format"@
}

/// The MAYO view of a Multisig.
pub struct MayoView<'a> {
    ms: &'a Multisig,
}

impl<'a> MayoView<'a> {
    /// The Multisig that this view reads.
    pub closed spec fn multisig(&self) -> Multisig {
        *self.ms
    }

    /// The MAYO view of a Multisig.
    pub fn new(ms: &'a Multisig) -> (r: Self)
        ensures
            r.multisig() == *ms,
    {
        Self { ms }
    }
}

impl<'a> TryFrom<&'a Multisig> for MayoView<'a> {
    type Error = Error;

    fn try_from(ms: &'a Multisig) -> (r: Result<Self, Error>)
        ensures
            r matches Ok(v) && v.multisig() == *ms,
    {
        Ok(Self::new(ms))
    }
}

impl<'a> TryFromSpecImpl<&'a Multisig> for MayoView<'a> {
    open spec fn obeys_try_from_spec() -> bool {
        false
    }

    closed spec fn try_from_spec(ms: &'a Multisig) -> Result<Self, Error> {
        Ok(MayoView { ms })
    }
}

impl<'a> AttrView for MayoView<'a> {
    fn payload_encoding(&self) -> (r: Result<u64, Error>)
        ensures
            payload_encoding_result(attr_view(self.multisig().attributes@), r),
    {
        payload_encoding_attr(self.ms)
    }

    fn scheme(&self) -> (r: Result<u8, Error>)
        ensures
            r matches Ok(0u8),
    {
        Ok(0)
    }
}

impl<'a> DataView for MayoView<'a> {
    fn sig_bytes(&self) -> (r: Result<Vec<u8>, Error>)
        ensures
            match attr_bytes(attr_view(self.multisig().attributes@), AttrId::SigData) {
                Some(b) => r matches Ok(v) && v@ == b,
                None => r matches Err(Error::Attributes(AttributesError::MissingSignature)),
            },
    {
        sig_data_attr(self.ms)
    }
}

impl<'a> ConvView for MayoView<'a> {
    fn to_ssh_signature(&self) -> (r: Result<ssh_key::Signature, Error>)
        ensures
            r matches Err(Error::UnsupportedAlgorithm(m)) && m@ == mayo_ssh_refusal(),
    {
        Err(Error::UnsupportedAlgorithm(String::from_str("MAYO not supported in SSH signature format")))
    }
}

} // verus!
