use vstd::prelude::*;

verus! {

/// A lower-case hexadecimal digit.
pub open spec fn is_lower_hex(c: char) -> bool {
    ('0' <= c && c <= '9') || ('a' <= c && c <= 'f')
}

/// Positions of the four hyphens in the canonical 8-4-4-4-12 layout.
pub open spec fn is_hyphen_slot(i: int) -> bool {
    i == 8 || i == 13 || i == 18 || i == 23
}

/// `t` is a version-4 UUID written in the canonical lower-case hyphenated
/// form: 32 hex digits in groups of 8-4-4-4-12, the version digit `4`, and a
/// variant digit among `8`, `9`, `a`, `b`.
pub open spec fn is_uuid_v4_text(t: Seq<char>) -> bool {
    &&& t.len() == 36
    &&& forall|i: int| 0 <= i < 36 ==> if is_hyphen_slot(i) {
        #[trigger] t[i] == '-'
    } else {
        is_lower_hex(t[i])
    }
    &&& t[14] == '4'
    &&& (t[19] == '8' || t[19] == '9' || t[19] == 'a' || t[19] == 'b')
}

/// Relies on uuid::Uuid::new_v4, which draws random bits and sets the version
/// and variant fields, and on its `Display` impl, which writes the lower-case
/// hyphenated form. Which identifier comes back is left open.
#[verifier::external_body]
pub(crate) fn new_v4_text() -> (r: String)
    ensures
        is_uuid_v4_text(r@),
{
    uuid::Uuid::new_v4().to_string()
}

} // verus!
