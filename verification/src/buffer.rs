//! The byte buffers of `bytes`, and what is believed of the calls into that crate.

use vstd::prelude::*;
use vstd::utf8::encode_utf8;

verus! {

/// The declaration of `bytes::Bytes`.
#[verifier::external_type_specification]
#[verifier::external_body]
pub struct ExBytes(bytes::Bytes);

/// The bytes that a `bytes::Bytes` holds.
pub uninterp spec fn bytes_of(bytes: bytes::Bytes) -> Seq<u8>;

/// `bytes::Bytes::from` of a `String`: the bytes of its UTF-8.
#[verifier::external_body]
pub(crate) fn to_bytes(text: String) -> (bytes: bytes::Bytes)
    ensures
        bytes_of(bytes) == encode_utf8(text@),
{
    bytes::Bytes::from(text)
}

/// The `Deref` of `bytes::Bytes`: a slice of all the bytes that it holds.
#[verifier::external_body]
pub(crate) fn as_slice(bytes: &bytes::Bytes) -> (slice: &[u8])
    ensures
        slice@ == bytes_of(*bytes),
{
    std::ops::Deref::deref(bytes)
}

} // verus!
