//! The Multisig value: a signature codec, an optional message and its
//! attributes.

use std::collections::BTreeMap;
use vstd::prelude::*;

verus! {

/// A self-describing signature: the multicodec code of its signature
/// scheme, the signed message (empty for a detached signature) and its
/// attributes, each stored under the `u8` code of its [`crate::AttrId`].
#[derive(Clone, Debug, PartialEq, Eq)]
pub struct Multisig {
    /// The multicodec code of the signature scheme
    pub codec: u64,
    /// The signed message carried in-band, if any
    pub message: Vec<u8>,
    /// The attributes, keyed by attribute code
    pub attributes: BTreeMap<u8, Vec<u8>>,
}

/// The attribute bytes of a map of attributes, keyed by attribute code.
pub open spec fn attr_view(m: Map<u8, Vec<u8>>) -> Map<u8, Seq<u8>> {
    m.map_values(|v: Vec<u8>| v@)
}

} // verus!
