//! OpenSSH signatures of the "additional algorithm" kind.

use vstd::prelude::*;

verus! {

/// Whether `id` is accepted as an OpenSSH additional algorithm name by
/// `ssh-key`: ASCII, at most 64 characters, and of the form
/// `name@domain` with exactly one `@`, neither part empty.
pub open spec fn ssh_algorithm_id_valid(id: Seq<char>) -> bool {
    &&& id.len() <= 64
    &&& forall|i: int| 0 <= i < id.len() ==> (id[i] as u32) < 128
    &&& exists|k: int|
        0 < k < id.len() - 1 && id[k] == '@' && forall|j: int|
            0 <= j < id.len() && j != k ==> id[j] != '@'
}

/// The algorithm name that `ssh-key` makes of a valid identifier.
pub uninterp spec fn ssh_algorithm_name_of(id: Seq<char>) -> ssh_key::AlgorithmName;

/// The signature that `ssh-key` makes of an additional algorithm and its
/// signature bytes.
pub uninterp spec fn ssh_other_signature(
    name: ssh_key::AlgorithmName,
    data: Seq<u8>,
) -> ssh_key::Signature;

/// `ssh_key::AlgorithmName::new`: accepts exactly the identifiers that
/// [`ssh_algorithm_id_valid`] describes.
#[verifier::external_body]
pub(crate) fn algorithm_name(id: &str) -> (r: Result<ssh_key::AlgorithmName, ssh_encoding::LabelError>)
    ensures
        r is Ok <==> ssh_algorithm_id_valid(id@),
        r matches Ok(a) ==> a == ssh_algorithm_name_of(id@),
{
    ssh_key::AlgorithmName::new(id)
}

/// `ssh_key::Signature::new` with `Algorithm::Other(name)`: accepts exactly
/// the non-empty signature bytes.
#[verifier::external_body]
pub(crate) fn other_signature(name: ssh_key::AlgorithmName, data: Vec<u8>) -> (r: Result<
    ssh_key::Signature,
    ssh_key::Error,
>)
    ensures
        r is Ok <==> data@.len() > 0,
        r matches Ok(s) ==> s == ssh_other_signature(name, data@),
{
    ssh_key::Signature::new(ssh_key::Algorithm::Other(name), data)
}

} // verus!
