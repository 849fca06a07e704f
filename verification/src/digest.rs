//! Digests.
use vstd::prelude::*;
use vstd::string::*;

verus! {

/// The SHA-256 digest of a text in hexadecimal.
pub uninterp spec fn sha256_text(s: Seq<char>) -> Seq<char>;

/// Whether a character is a lower-case hexadecimal digit.
pub open spec fn is_hex_digit(c: char) -> bool {
    ('0' <= c && c <= '9') || ('a' <= c && c <= 'f')
}

/// The digest of the UTF-8 bytes of a text, through `sha2::Sha256`, written in
/// its lower-case hexadecimal form: 64 digits.
#[verifier::external_body]
pub(crate) fn sha256_hex(s: &str) -> (r: String)
    ensures
        r@ == sha256_text(s@),
        r@.len() == 64,
        forall|i: int| 0 <= i < r@.len() ==> is_hex_digit(#[trigger] r@[i]),
{
    let digest = <sha2::Sha256 as sha2::Digest>::digest(s.as_bytes());
    format!("{:x}", digest)
}

} // verus!
