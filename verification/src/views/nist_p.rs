//! The NIST P-256/P-384/P-521 ECDSA view of a Multisig.

use crate::error::Error;
use crate::ms::{attr_view, Multisig};
use crate::ssh::ssh_algorithm_id_valid;
use crate::views::threshold_meta::attr_bytes;
use crate::views::{payload_encoding_attr, payload_encoding_result, sig_data_attr, ssh_conversion, to_ssh_other};
use crate::views::{AttrView, ConvView, DataView};
use crate::attrid::AttrId;
use crate::error::AttributesError;
use vstd::prelude::*;
use vstd::std_specs::convert::TryFromSpecImpl;

verus! {

/// The multicodec code of ECDSA P-256 multisignatures.
pub const ES256_MSIG: u64 = 0xd01308;

/// The multicodec code of ECDSA P-384 multisignatures.
pub const ES384_MSIG: u64 = 0xd01309;

/// The multicodec code of ECDSA P-521 multisignatures.
pub const ES521_MSIG: u64 = 0xd0130a;

/// The OpenSSH algorithm name of an ECDSA multisignature codec.
pub open spec fn nist_p_algorithm(codec: u64) -> Seq<char> {
    if codec == ES256_MSIG {
        "ecdsa-sha2-nistp256@multisig"@
    } else if codec == ES384_MSIG {
        "ecdsa-sha2-nistp384@multisig"@
    } else if codec == ES521_MSIG {
        "ecdsa-sha2-nistp521@multisig"@
    } else {
        "ecdsa@multisig"@
    }
}

/// The OpenSSH algorithm name of an ECDSA multisignature codec; every one
/// is a valid additional algorithm name.
pub fn algorithm_name(codec: u64) -> (r: &'static str)
    ensures
        r@ == nist_p_algorithm(codec),
        ssh_algorithm_id_valid(r@),
{
    if codec == ES256_MSIG {
        let r = "ecdsa-sha2-nistp256@multisig";
        proof {
            reveal_strlit("ecdsa-sha2-nistp256@multisig");
            assert(r@[19] == '@');
        }
        r
    } else if codec == ES384_MSIG {
        let r = "ecdsa-sha2-nistp384@multisig";
        proof {
            reveal_strlit("ecdsa-sha2-nistp384@multisig");
            assert(r@[19] == '@');
        }
        r
    } else if codec == ES521_MSIG {
        let r = "ecdsa-sha2-nistp521@multisig";
        proof {
            reveal_strlit("ecdsa-sha2-nistp521@multisig");
            assert(r@[19] == '@');
        }
        r
    } else {
        let r = "ecdsa@multisig";
        proof {
            reveal_strlit("ecdsa@multisig");
            assert(r@[5] == '@');
        }
        r
    }
}

/// The ECDSA view of a Multisig.
pub struct NistPView<'a> {
    ms: &'a Multisig,
}

impl<'a> NistPView<'a> {
    /// The Multisig that this view reads.
    pub closed spec fn multisig(&self) -> Multisig {
        *self.ms
    }

    /// The ECDSA view of a Multisig.
    pub fn new(ms: &'a Multisig) -> (r: Self)
        ensures
            r.multisig() == *ms,
    {
        Self { ms }
    }
}

impl<'a> TryFrom<&'a Multisig> for NistPView<'a> {
    type Error = Error;

    fn try_from(ms: &'a Multisig) -> (r: Result<Self, Error>)
        ensures
            r matches Ok(v) && v.multisig() == *ms,
    {
        Ok(Self::new(ms))
    }
}

impl<'a> TryFromSpecImpl<&'a Multisig> for NistPView<'a> {
    open spec fn obeys_try_from_spec() -> bool {
        false
    }

    closed spec fn try_from_spec(ms: &'a Multisig) -> Result<Self, Error> {
        Ok(NistPView { ms })
    }
}

impl<'a> AttrView for NistPView<'a> {
    fn payload_encoding(&self) -> (r: Result<u64, Error>)
        ensures
            payload_encoding_result(attr_view(self.multisig().attributes@), r),
    {
        payload_encoding_attr(self.ms)
    }

    fn scheme(&self) -> (r: Result<u8, Error>)
        ensures
            r matches Ok(0u8),
    {
        Ok(0)
    }
}

impl<'a> DataView for NistPView<'a> {
    fn sig_bytes(&self) -> (r: Result<Vec<u8>, Error>)
        ensures
            match attr_bytes(attr_view(self.multisig().attributes@), AttrId::SigData) {
                Some(b) => r matches Ok(v) && v@ == b,
                None => r matches Err(Error::Attributes(AttributesError::MissingSignature)),
            },
    {
        sig_data_attr(self.ms)
    }
}

impl<'a> ConvView for NistPView<'a> {
    fn to_ssh_signature(&self) -> (r: Result<ssh_key::Signature, Error>)
        ensures
            ssh_conversion(
                attr_view(self.multisig().attributes@),
                nist_p_algorithm(self.multisig().codec),
                r,
            ),
    {
        let name = algorithm_name(self.ms.codec);
        to_ssh_other(self.ms, name)
    }
}

} // verus!
