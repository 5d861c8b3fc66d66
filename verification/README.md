# multi-sig

Self-describing digital signatures (Multisig): a signature codec, an optional
message and numbered attributes, with views that read them, convert them to
OpenSSH signatures and control the disclosure of threshold parameters.

`src/` is the library, written in Verus. Every function there carries a
contract that Verus proves, except the few trusted wrappers in `aead`,
`ssh`, `varint` and `text` that make the calls into outside crates: their
contracts are believed, not proved.

- `types`: `SignatureBytes`, a wrapper for raw signature bytes.
- `error`: the error types, their kinds and messages.
- `attrid`, `ms`: attribute identifiers and the `Multisig` value.
- `varint`, `cbor`, `text`: unsigned varints, CBOR data item heads,
  decimal and hexadecimal text.
- `aead`, `ssh`: the calls into `chacha20poly1305`, `getrandom` and `ssh-key`,
  with the contracts they are trusted to meet.
- `views`: the attribute, data and conversion views of the ECDSA, RSA and
  MAYO signatures, the CBOR form of the threshold metadata (`meta_cbor`),
  and the threshold disclosure modes (`threshold_meta`),
  with the laws that tie stamping, reading and converting together
  (`disclosure_laws`).

`app/` holds what needs outside derives or crates that the library cannot
hold: serde forms of the metadata types, the meta key generator and the
multicodec `Codec` conversions.
