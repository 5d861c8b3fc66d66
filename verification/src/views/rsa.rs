//! The RSA-SHA256 view of a Multisig.

use crate::attrid::AttrId;
use crate::error::{AttributesError, Error};
use crate::ms::{attr_view, Multisig};
use crate::ssh::ssh_algorithm_id_valid;
use crate::views::threshold_meta::attr_bytes;
use crate::views::{payload_encoding_attr, payload_encoding_result, sig_data_attr, ssh_conversion, to_ssh_other};
use crate::views::{AttrView, ConvView, DataView};
use vstd::prelude::*;
use vstd::std_specs::convert::TryFromSpecImpl;

verus! {

/// The OpenSSH algorithm name of RSA-SHA256 multisignatures.
pub open spec fn rsa_algorithm() -> Seq<char> {
    "rsa-sha256@multisig"@
}

/// The OpenSSH algorithm name of RSA-SHA256 multisignatures, a valid
/// additional algorithm name.
pub fn algorithm_name() -> (r: &'static str)
    ensures
        r@ == rsa_algorithm(),
        ssh_algorithm_id_valid(r@),
{
    let r = "rsa-sha256@multisig";
    proof {
        reveal_strlit("rsa-sha256@multisig");
        assert(r@[10] == '@');
    }
    r
}

/// The RSA view of a Multisig.
pub struct RsaView<'a> {
    ms: &'a Multisig,
}

impl<'a> RsaView<'a> {
    /// The Multisig that this view reads.
    pub closed spec fn multisig(&self) -> Multisig {
        *self.ms
    }

    /// The RSA view of a Multisig.
    pub fn new(ms: &'a Multisig) -> (r: Self)
        ensures
            r.multisig() == *ms,
    {
        Self { ms }
    }
}

impl<'a> TryFrom<&'a Multisig> for RsaView<'a> {
    type Error = Error;

    fn try_from(ms: &'a Multisig) -> (r: Result<Self, Error>)
        ensures
            r matches Ok(v) && v.multisig() == *ms,
    {
        Ok(Self::new(ms))
    }
}

impl<'a> TryFromSpecImpl<&'a Multisig> for RsaView<'a> {
    open spec fn obeys_try_from_spec() -> bool {
        false
    }

    closed spec fn try_from_spec(ms: &'a Multisig) -> Result<Self, Error> {
        Ok(RsaView { ms })
    }
}

impl<'a> AttrView for RsaView<'a> {
    fn payload_encoding(&self) -> (r: Result<u64, Error>)
        ensures
            payload_encoding_result(attr_view(self.multisig().attributes@), r),
    {
        payload_encoding_attr(self.ms)
    }

    fn scheme(&self) -> (r: Result<u8, Error>)
        ensures
            r matches Ok(0u8),
    {
        Ok(0)
    }
}

impl<'a> DataView for RsaView<'a> {
    fn sig_bytes(&self) -> (r: Result<Vec<u8>, Error>)
        ensures
            match attr_bytes(attr_view(self.multisig().attributes@), AttrId::SigData) {
                Some(b) => r matches Ok(v) && v@ == b,
                None => r matches Err(Error::Attributes(AttributesError::MissingSignature)),
            },
    {
        sig_data_attr(self.ms)
    }
}

impl<'a> ConvView for RsaView<'a> {
    fn to_ssh_signature(&self) -> (r: Result<ssh_key::Signature, Error>)
        ensures
            ssh_conversion(attr_view(self.multisig().attributes@), rsa_algorithm(), r),
    {
        let name = algorithm_name();
        to_ssh_other(self.ms, name)
    }
}

} // verus!
