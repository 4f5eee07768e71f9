//! Base32 text, read by the `base32` crate.

use vstd::prelude::*;

verus! {

/// What `base32::decode` returns for `text` with the RFC 4648 alphabet and no
/// padding: the bytes that the text spells, or `None` where it is not base32.
pub uninterp spec fn base32_decoded(text: Seq<char>) -> Option<Seq<u8>>;

/// `base32::decode` with the RFC 4648 alphabet, unpadded: the result is the
/// one that `base32_decoded` names for these characters.
#[verifier::external_body]
pub(crate) fn base32_decode(text: &[char]) -> (res: Option<Vec<u8>>)
    ensures
        match res {
            Some(bytes) => base32_decoded(text@) == Some(bytes@),
            None => base32_decoded(text@) is None,
        },
{
    let owned: String = text.iter().collect();
    ::base32::decode(::base32::Alphabet::RFC4648 { padding: false }, &owned)
}

} // verus!
