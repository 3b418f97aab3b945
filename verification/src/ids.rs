//! Identifier text from random bits.
use vstd::prelude::*;

verus! {

/// The hyphenated text of the version-4 UUID `uuid` builds from `random`.
pub uninterp spec fn uuid_text(random: u128) -> Seq<char>;

/// Calls `uuid::Builder::from_random_bytes` on the native-endian bytes of
/// `random` (which sets the version and variant bits) and renders the UUID
/// with `Hyphenated`'s `Display`: 36 characters, a function of `random`
/// alone. Which characters they are is only named.
#[verifier::external_body]
pub(crate) fn uuid_v4_text(random: u128) -> (r: String)
    ensures
        r@ == uuid_text(random),
        r@.len() == 36,
{
    uuid::Builder::from_random_bytes(random.to_ne_bytes()).into_uuid().hyphenated().to_string()
}

} // verus!
