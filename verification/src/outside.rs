//! The outside types that the library's values carry.

use chacha20poly1305::Error as AeadError;
use getrandom::Error as RandomError;
use multi_base::Error as MultibaseError;
use multi_trait::Error as MultitraitError;
use ssh_encoding::LabelError;
use ssh_key::Error as SshKeyError;
use ssh_key::{AlgorithmName, Signature};
use vstd::prelude::*;

verus! {

/// The error type of the `multi-base` crate.
#[verifier::external_type_specification]
#[verifier::external_body]
pub struct ExMultibaseError(MultibaseError);

/// The error type of the `multi-trait` crate.
#[verifier::external_type_specification]
#[verifier::external_body]
pub struct ExMultitraitError(MultitraitError);

/// The formatting error of `core::fmt`.
#[verifier::external_type_specification]
#[verifier::external_body]
pub struct ExFmtError(core::fmt::Error);

/// The UTF-8 conversion error of `String::from_utf8`.
#[verifier::external_type_specification]
#[verifier::external_body]
pub struct ExFromUtf8Error(std::string::FromUtf8Error);

/// The error type of the `ssh-key` crate.
#[verifier::external_type_specification]
#[verifier::external_body]
pub struct ExSshKeyError(SshKeyError);

/// The label error of the `ssh-encoding` crate.
#[verifier::external_type_specification]
#[verifier::external_body]
pub struct ExLabelError(LabelError);

/// The error of the `aead` traits that ChaCha20-Poly1305 implements.
#[verifier::external_type_specification]
#[verifier::external_body]
pub struct ExAeadError(AeadError);

/// The error of the `getrandom` crate.
#[verifier::external_type_specification]
#[verifier::external_body]
pub struct ExRandomError(RandomError);

/// An OpenSSH algorithm name of the form `name@domain` (`ssh-key`).
#[verifier::external_type_specification]
#[verifier::external_body]
pub struct ExAlgorithmName(AlgorithmName);

/// An OpenSSH signature (`ssh-key`).
#[verifier::external_type_specification]
#[verifier::external_body]
pub struct ExSignature(Signature);

} // verus!
