//! Session identifiers.

use vstd::prelude::*;

verus! {

/// Whether `c` is a decimal digit or one of the letters `a` to `f`.
pub open spec fn is_lower_hex(c: char) -> bool {
    ('0' <= c && c <= '9') || ('a' <= c && c <= 'f')
}

/// Whether `i` is one of the four places at which an identifier has a hyphen.
pub open spec fn is_hyphen_place(i: int) -> bool {
    i == 8 || i == 13 || i == 18 || i == 23
}

/// Whether `text` has the shape of a random (version 4) UUID in its usual
/// notation: 36 characters, hyphens after the 8th, 12th, 16th and 20th digit,
/// lower-case hexadecimal digits elsewhere, the digit `4` for the version and
/// one of `8`, `9`, `a`, `b` for the variant.
pub open spec fn is_random_uuid_text(text: Seq<char>) -> bool {
    &&& text.len() == 36
    &&& forall|i: int|
        0 <= i < 36 ==> if is_hyphen_place(i) {
            #[trigger] text[i] == '-'
        } else {
            is_lower_hex(text[i])
        }
    &&& text[14] == '4'
    &&& (text[19] == '8' || text[19] == '9' || text[19] == 'a' || text[19] == 'b')
}

/// Draws a candidate for a session identifier: `uuid::Uuid::new_v4()`,
/// written out by its `Display` impl.
///
/// Trusted: the text has the shape that [`is_random_uuid_text`] describes.
/// Nothing is claimed about which identifier comes back, and in particular
/// not that it differs from an earlier one. The call panics where the
/// operating system gives no random bytes.
#[verifier::external_body]
pub(crate) fn random_identifier() -> (id: String)
    ensures
        is_random_uuid_text(id@),
{
    uuid::Uuid::new_v4().to_string()
}

} // verus!
