//! The digest call: the SHA-1 digest of a borrowed view, handed back as owned
//! text.

use vstd::prelude::*;
use vstd::utf8::{is_ascii_chars, is_ascii_chars_encode_utf8};
use crate::text::{nul_free, payload, produce_owned_text, terminated, text_bytes, OwnedText};

verus! {

/// The SHA-1 digest of `data`, written as hexadecimal text. The digest is
/// computed outside this crate; this is the name for what comes back.
pub uninterp spec fn sha1_hex(data: Seq<u8>) -> Seq<char>;

/// A digit of lower-case hexadecimal: `0` to `9` or `a` to `f`.
pub open spec fn is_lower_hex(c: char) -> bool {
    ('0' <= c && c <= '9') || ('a' <= c && c <= 'f')
}

/// The form that every digest text has: forty digits of lower-case
/// hexadecimal.
pub open spec fn is_hex_digest(text: Seq<char>) -> bool {
    &&& text.len() == 40
    &&& forall|i: int| 0 <= i < text.len() ==> is_lower_hex(#[trigger] text[i])
}

/// `sha1::Sha1::new`, `Sha1::update` and `Sha1::digest`, and the digest's
/// `to_string`: a fresh hash object is fed `data` once, and its digest is
/// written out. The text depends on `data` alone. It is the five 32-bit words
/// of the state, each written as eight digits of lower-case hexadecimal.
/// Nothing is proved of this: the contract is taken from the source of `sha1`.
#[verifier::external_body]
fn sha1_hexdigest(data: &[u8]) -> (hex: String)
    ensures
        hex@ == sha1_hex(data@),
        is_hex_digest(hex@),
{
    let mut hasher = sha1::Sha1::new();
    hasher.update(data);
    hasher.digest().to_string()
}

/// Hands `hex` over as owned text, for any text that has the form of a
/// digest.
pub fn digest_text(hex: &str) -> (text: OwnedText)
    requires
        is_hex_digest(hex@),
    ensures
        text.wf(),
        text@ == hex@,
        text.spec_bytes() == terminated(hex@),
        text.spec_bytes().len() == 41,
{
    proof {
        assert forall|i: int| 0 <= i < hex@.len() implies '\0' < #[trigger] hex@[i]
            <= '\u{7f}' by {
            assert(is_lower_hex(hex@[i]));
        }
        assert(nul_free(hex@));
        assert(is_ascii_chars(hex@));
        is_ascii_chars_encode_utf8(hex@);
    }
    produce_owned_text(hex)
}

/// Digests the text of a null-terminated view: the bytes before the first
/// zero byte, or all of them if none is zero. The digest comes back as owned
/// text of forty hexadecimal digits.
pub fn digest(data: &[u8]) -> (text: OwnedText)
    ensures
        text.wf(),
        text@ == sha1_hex(payload(data@)),
        is_hex_digest(text@),
        text.spec_bytes() == terminated(sha1_hex(payload(data@))),
        text.spec_bytes().len() == 41,
{
    let hex = sha1_hexdigest(text_bytes(data));
    digest_text(hex.as_str())
}

} // verus!
