//! UTF-8 validity, as std's `core::str::from_utf8` decides it.
use vstd::prelude::*;
use vstd::utf8::valid_utf8;

verus! {

/// Trusted: calls `core::str::from_utf8`, which std documents to return `Ok`
/// exactly when the bytes are valid UTF-8; the contract states that with vstd's
/// definition of valid UTF-8.
#[verifier::external_body]
pub(crate) fn is_valid_utf8(bytes: &[u8]) -> (r: bool)
    ensures
        r == valid_utf8(bytes@),
{
    core::str::from_utf8(bytes).is_ok()
}

} // verus!
