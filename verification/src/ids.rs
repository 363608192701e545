//! Unique names for files.
use vstd::prelude::*;

verus! {

/// Whether `c` is a lower-case hexadecimal digit.
pub open spec fn is_hex(c: char) -> bool {
    '0' <= c <= '9' || 'a' <= c <= 'f'
}

/// Whether `s` is a random (version 4) UUID in its usual form: 36 characters, with
/// hyphens at four places and lower-case hexadecimal digits at all others, a `4` for
/// the version, and one of `8`, `9`, `a`, `b` for the variant.
pub open spec fn is_uuid(s: Seq<char>) -> bool {
    &&& s.len() == 36
    &&& s[8] == '-' && s[13] == '-' && s[18] == '-' && s[23] == '-'
    &&& forall|i: int|
        0 <= i < 36 && i != 8 && i != 13 && i != 18 && i != 23 ==> is_hex(#[trigger] s[i])
    &&& s[14] == '4'
    &&& s[19] == '8' || s[19] == '9' || s[19] == 'a' || s[19] == 'b'
}

/// `uuid::Uuid::new_v4` draws a random UUID from the operating system's generator, and
/// its `to_string` writes it hyphenated in lower case. Claimed is the form of the text,
/// which every draw has; which UUID comes is left open, and so is a system that has no
/// random numbers to give.
#[verifier::external_body]
pub(crate) fn fresh_uuid() -> (r: String)
    ensures
        is_uuid(r@),
{
    uuid::Uuid::new_v4().to_string()
}

/// A UUID holds no slash and no dot, so it can stand in a file's name.
pub proof fn law_uuid_is_a_plain_name(s: Seq<char>)
    requires
        is_uuid(s),
    ensures
        crate::path::plain_name(s),
        !s.contains('.'),
{
    assert(!s.contains('/') && !s.contains('.')) by {
        assert forall|i: int| 0 <= i < s.len() implies s[i] != '/' && s[i] != '.' by {
            if i != 8 && i != 13 && i != 18 && i != 23 {
                assert(is_hex(s[i]));
            }
        }
    }
}

} // verus!
