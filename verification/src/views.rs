//! Views on the Multisig data: read-only interfaces to its attributes, its
//! signature bytes, its conversion to other formats and its threshold
//! disclosure.

pub mod disclosure_laws;
pub mod mayo;
pub mod meta_cbor;
pub mod nist_p;
pub mod rsa;
pub mod threshold_meta;

use crate::attrid::{lemma_attr_codes_are_the_wire_codes, AttrId};
use crate::error::{AttributesError, ConversionsError, Error, SharesError, SshError};
use crate::ms::{attr_view, Multisig};
use crate::ssh::{
    algorithm_name, other_signature, ssh_algorithm_id_valid, ssh_algorithm_name_of,
    ssh_other_signature,
};
use crate::text::{decimal, decimal_string, join};
use crate::varint::{
    decode_u64, decode_u64_spec, lemma_decode_u64, lemma_decode_within, uvarint, varint_error_text,
};
use crate::views::threshold_meta::{
    attr_bytes, stamp_key_error, disclosure_error_text, disclosure_mode_of, read_error_text, fault_matches, key_view, stamp_fault,
    stamp_result, threshold_params_of, ThresholdDisclosure,
};
use vstd::prelude::*;

verus! {

/// The attributes of a Multisig.
pub trait AttrView {
    /// The multicodec code that the signed message was encoded with, read
    /// from the payload encoding attribute (one unsigned varint).
    fn payload_encoding(&self) -> Result<u64, Error>;

    /// The signing scheme identifier, if any.
    fn scheme(&self) -> Result<u8, Error>;
}

/// The signature data of a Multisig.
pub trait DataView {
    /// The signature bytes.
    fn sig_bytes(&self) -> Result<Vec<u8>, Error>;
}

/// Conversion of a Multisig to other formats.
pub trait ConvView {
    /// The Multisig as an OpenSSH signature.
    fn to_ssh_signature(&self) -> Result<ssh_key::Signature, Error>;
}

/// The threshold attributes of a Multisig share.
pub trait ThresholdAttrView {
    /// The threshold value of this share.
    fn threshold(&self) -> Result<usize, Error>;

    /// The limit value of this share.
    fn limit(&self) -> Result<usize, Error>;

    /// The identifier of this share.
    fn identifier(&self) -> Result<&[u8], Error>;

    /// The threshold data of the signature.
    fn threshold_data(&self) -> Result<&[u8], Error>;
}

/// The threshold disclosure mode of a Multisig and the threshold
/// parameters it guards.
pub trait ThresholdDisclosureView {
    /// The Multisig that this view reads.
    spec fn source(&self) -> Multisig;

    /// The current disclosure mode; `Full` where the Multisig records none.
    fn disclosure_mode(&self) -> (r: Result<ThresholdDisclosure, Error>)
        ensures
            match disclosure_mode_of(attr_view(self.source().attributes@)) {
                Some(m) => r matches Ok(m2) && m2 == m,
                None => r matches Err(Error::Shares(SharesError::MetaEncryption(m))) && m@
                    == disclosure_error_text(attr_view(self.source().attributes@)),
            },
    ;

    /// Read `t` and `n`, decrypting with the raw 32-byte `meta_key` where
    /// the mode encrypts them.
    fn read_threshold_params(&self, meta_key: Option<&[u8]>) -> (r: Result<(usize, usize), Error>)
        ensures
            match threshold_params_of(attr_view(self.source().attributes@), key_view(meta_key)) {
                Ok((t, n)) => r matches Ok((t2, n2)) && t2 == t && n2 == n,
                Err(f) => r matches Err(e) && fault_matches(e, f),
            },
            r matches Err(Error::Shares(SharesError::MetaEncryption(m))) ==> m@ == read_error_text(
                attr_view(self.source().attributes@),
                key_view(meta_key),
            ),
    ;

    /// A copy of the Multisig with its threshold parameters (read with
    /// `current_meta_key`) stamped in the `target` mode under `meta_key`.
    fn to_disclosure(
        &self,
        target: ThresholdDisclosure,
        meta_key: Option<&[u8]>,
        current_meta_key: Option<&[u8]>,
    ) -> (r: Result<Multisig, Error>)
        ensures
            match threshold_params_of(
                attr_view(self.source().attributes@),
                key_view(current_meta_key),
            ) {
                Err(f) => r matches Err(e) && fault_matches(e, f) && (e matches Error::Shares(
                    SharesError::MetaEncryption(m),
                ) ==> m@ == read_error_text(
                    attr_view(self.source().attributes@),
                    key_view(current_meta_key),
                )),
                Ok((t, n)) => {
                    &&& r matches Ok(ms) ==> {
                        &&& ms.codec == self.source().codec
                        &&& ms.message@ == self.source().message@
                        &&& stamp_result(
                            attr_view(self.source().attributes@),
                            attr_view(ms.attributes@),
                            target,
                            t as usize,
                            n as usize,
                            key_view(meta_key),
                            true,
                        )
                    }
                    &&& r matches Err(e) ==> {
                        &&& fault_matches(e, stamp_fault(key_view(meta_key)))
                        &&& target != ThresholdDisclosure::Full && meta_key is Some
                            ==> stamp_key_error(meta_key.unwrap()@, e)
                        &&& exists|fin: Map<u8, Seq<u8>>|
                            #[trigger] stamp_result(
                                attr_view(self.source().attributes@),
                                fin,
                                target,
                                t as usize,
                                n as usize,
                                key_view(meta_key),
                                false,
                            )
                    }
                },
            },
    ;
}

/// The message of the error for a payload encoding attribute that holds
/// bytes after its varint: how many the varint took and how many are left.
pub open spec fn trailing_data_message(consumed: nat, remaining: nat) -> Seq<char> {
    "trailing data after codec varint: "@ + decimal(consumed) + " byte(s) consumed, "@ + decimal(
        remaining,
    ) + " byte(s) left\n`TryFrom<&[u8]>` requires exactly one varint with no trailing bytes. Use `Codec::try_decode_from` to parse a codec from a stream with trailing data."@
}

/// What reading the payload encoding of the attributes gives: the code of
/// the one unsigned varint that the attribute holds, or the error that a
/// missing attribute, a malformed varint or bytes after it give.
pub open spec fn payload_encoding_result(attrs: Map<u8, Seq<u8>>, r: Result<u64, Error>) -> bool {
    match attr_bytes(attrs, AttrId::PayloadEncoding) {
        None => r matches Err(Error::Attributes(AttributesError::MissingPayloadEncoding)),
        Some(b) => match decode_u64_spec(b) {
            Err(_) => r matches Err(Error::Multicodec(m)) && m@ == varint_error_text(),
            Ok((v, k)) => if k == b.len() {
                r matches Ok(c) && c == v
            } else {
                r matches Err(Error::Multicodec(m)) && m@ == trailing_data_message(
                    k,
                    (b.len() - k) as nat,
                )
            },
        },
    }
}

/// The payload encoding attribute holding the varint of `code` reads back as
/// `code`.
pub proof fn lemma_payload_encoding_roundtrip(attrs: Map<u8, Seq<u8>>, code: u64, r: Result<
    u64,
    Error,
>)
    requires
        attr_bytes(attrs, AttrId::PayloadEncoding) == Some(uvarint(code as nat)),
        payload_encoding_result(attrs, r),
    ensures
        r == Ok::<u64, Error>(code),
{
    let e = Seq::<u8>::empty();
    lemma_decode_u64(code, e);
    assert(uvarint(code as nat) + e =~= uvarint(code as nat));
}

/// Read the payload encoding of a Multisig: the code of the one unsigned
/// varint that its payload encoding attribute holds.
pub fn payload_encoding_attr(ms: &Multisig) -> (r: Result<u64, Error>)
    ensures
        payload_encoding_result(attr_view(ms.attributes@), r),
{
    let code = AttrId::PayloadEncoding.code();
    let v = match ms.attributes.get(&code) {
        Some(v) => v,
        None => return Err(Error::Attributes(AttributesError::MissingPayloadEncoding)),
    };
    proof {
        lemma_decode_within(v@, 0, 0, 9, 64);
    }
    match decode_u64(v.as_slice()) {
        Ok((c, rest)) => {
            if rest.len() == 0 {
                Ok(c)
            } else {
                let consumed = v.len() - rest.len();
                let a = decimal_string(consumed as u64);
                let b = decimal_string(rest.len() as u64);
                let m = join("trailing data after codec varint: ", a.as_str());
                let m = join(m.as_str(), " byte(s) consumed, ");
                let m = join(m.as_str(), b.as_str());
                let m = join(
                    m.as_str(),
                    " byte(s) left\n`TryFrom<&[u8]>` requires exactly one varint with no trailing bytes. Use `Codec::try_decode_from` to parse a codec from a stream with trailing data.",
                );
                proof {
                    reveal_strlit("trailing data after codec varint: ");
                    reveal_strlit(" byte(s) consumed, ");
                    reveal_strlit(
                        " byte(s) left\n`TryFrom<&[u8]>` requires exactly one varint with no trailing bytes. Use `Codec::try_decode_from` to parse a codec from a stream with trailing data.",
                    );
                    assert(m@ =~= trailing_data_message(consumed as nat, rest.len() as nat));
                }
                Err(Error::Multicodec(m))
            }
        },
        Err(e) => Err(Error::Multicodec(e.to_string())),
    }
}

/// The signature bytes of a Multisig, or the error that says they are
/// missing.
pub fn sig_data_attr(ms: &Multisig) -> (r: Result<Vec<u8>, Error>)
    ensures
        match attr_bytes(attr_view(ms.attributes@), AttrId::SigData) {
            Some(b) => r matches Ok(v) && v@ == b,
            None => r matches Err(Error::Attributes(AttributesError::MissingSignature)),
        },
{
    let code = AttrId::SigData.code();
    match ms.attributes.get(&code) {
        Some(v) => Ok(v.clone()),
        None => Err(Error::Attributes(AttributesError::MissingSignature)),
    }
}

/// What converting a Multisig to an OpenSSH signature of the additional
/// algorithm `name` gives: the signature over its signature bytes where
/// those are present and not empty.
pub open spec fn ssh_conversion(attrs: Map<u8, Seq<u8>>, name: Seq<char>, r: Result<
    ssh_key::Signature,
    Error,
>) -> bool {
    match attr_bytes(attrs, AttrId::SigData) {
        None => r matches Err(Error::Attributes(AttributesError::MissingSignature)),
        Some(b) => if b.len() > 0 {
            r matches Ok(s) && s == ssh_other_signature(ssh_algorithm_name_of(name), b)
        } else {
            r matches Err(Error::Conversions(ConversionsError::Ssh(SshError::Sig(_))))
        },
    }
}

/// Convert a Multisig to an OpenSSH signature of the additional algorithm
/// `name`.
pub fn to_ssh_other(ms: &Multisig, name: &str) -> (r: Result<ssh_key::Signature, Error>)
    requires
        ssh_algorithm_id_valid(name@),
    ensures
        ssh_conversion(attr_view(ms.attributes@), name@, r),
{
    let sig = match sig_data_attr(ms) {
        Ok(s) => s,
        Err(e) => return Err(e),
    };
    let algo = match algorithm_name(name) {
        Ok(a) => a,
        Err(e) => return Err(Error::Conversions(ConversionsError::Ssh(SshError::SigLabel(e)))),
    };
    match other_signature(algo, sig) {
        Ok(s) => Ok(s),
        Err(e) => Err(Error::Conversions(ConversionsError::Ssh(SshError::Sig(e)))),
    }
}

/// The views read the signature bytes from attribute 0 and the payload
/// encoding from attribute 1: a missing attribute 0 is a missing signature,
/// the OpenSSH form of a Multisig carries exactly the non-empty bytes of
/// attribute 0, and attribute 1 holding the varint of `code` reads as
/// `code`.
pub proof fn lemma_views_read_codes_0_and_1(
    attrs: Map<u8, Seq<u8>>,
    name: Seq<char>,
    ssh: Result<ssh_key::Signature, Error>,
    payload: Result<u64, Error>,
    code: u64,
)
    requires
        ssh_conversion(attrs, name, ssh),
        payload_encoding_result(attrs, payload),
    ensures
        attr_bytes(attrs, AttrId::SigData) == if attrs.contains_key(0u8) {
            Some(attrs[0u8])
        } else {
            None::<Seq<u8>>
        },
        attr_bytes(attrs, AttrId::PayloadEncoding) == if attrs.contains_key(1u8) {
            Some(attrs[1u8])
        } else {
            None::<Seq<u8>>
        },
        !attrs.contains_key(0u8) ==> ssh matches Err(
            Error::Attributes(AttributesError::MissingSignature),
        ),
        attrs.contains_key(0u8) && attrs[0u8].len() > 0 ==> ssh == Ok::<
            ssh_key::Signature,
            Error,
        >(ssh_other_signature(ssh_algorithm_name_of(name), attrs[0u8])),
        !attrs.contains_key(1u8) ==> payload matches Err(
            Error::Attributes(AttributesError::MissingPayloadEncoding),
        ),
        attrs.contains_key(1u8) && attrs[1u8] == uvarint(code as nat) ==> payload == Ok::<
            u64,
            Error,
        >(code),
{
    lemma_attr_codes_are_the_wire_codes(AttrId::SigData, AttrId::PayloadEncoding);
    if attrs.contains_key(1u8) && attrs[1u8] == uvarint(code as nat) {
        lemma_payload_encoding_roundtrip(attrs, code, payload);
    }
}

} // verus!
