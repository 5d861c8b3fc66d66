//! Self-describing digital signature containers: attributes, threshold
//! disclosure metadata and signature views.

pub mod aead;
pub mod attrid;
pub mod cbor;
pub mod error;
pub mod ms;
pub mod outside;
pub mod ssh;
pub mod text;
pub mod types;
pub mod varint;
pub mod views;

pub use attrid::AttrId;
pub use error::Error;
pub use ms::Multisig;
pub use types::SignatureBytes;
pub use views::threshold_meta::{ThresholdDisclosure, ThresholdMetaCipher, ThresholdMetadata};
