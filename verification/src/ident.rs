//! Fresh session ids.

use vstd::prelude::*;

verus! {

/// Whether `c` is a hexadecimal digit in lower case.
pub open spec fn is_lower_hex(c: char) -> bool {
    '0' <= c <= '9' || 'a' <= c <= 'f'
}

/// Whether `s` has the shape of a hyphenated UUID in lower case: 36
/// characters, hyphens at the places 8, 13, 18 and 23, hexadecimal digits
/// elsewhere.
pub open spec fn is_hyphenated_uuid(s: Seq<char>) -> bool {
    &&& s.len() == 36
    &&& forall|i: int|
        0 <= i < 36 ==> if i == 8 || i == 13 || i == 18 || i == 23 {
            #[trigger] s[i] == '-'
        } else {
            is_lower_hex(s[i])
        }
}

/// A fresh session id: `uuid::Uuid::new_v4()` in its `Display` form.
/// Trusted: the text has the shape of a hyphenated lower-case UUID. The id
/// is random, so nothing else is claimed, and two calls may differ; that
/// two ids are distinct is a matter of chance that no contract states.
#[verifier::external_body]
pub(crate) fn fresh_session_id() -> (id: String)
    ensures
        is_hyphenated_uuid(id@),
{
    uuid::Uuid::new_v4().to_string()
}

} // verus!
