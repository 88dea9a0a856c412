//! Random identifiers.
use vstd::prelude::*;

verus! {

/// Whether `c` is a lower-case hexadecimal digit.
pub open spec fn hex_digit(c: char) -> bool {
    ('0' <= c && c <= '9') || ('a' <= c && c <= 'f')
}

/// Whether an identifier has a hyphen at `i`: between its groups of 8, 4, 4, 4 and 12
/// digits.
pub open spec fn hyphen_at(i: int) -> bool {
    i == 8 || i == 13 || i == 18 || i == 23
}

/// Whether `s` has the form of a random identifier: five groups of lower-case
/// hexadecimal digits with hyphens between them, the third of which begins with the
/// version, 4.
pub open spec fn id_form(s: Seq<char>) -> bool {
    &&& s.len() == 36
    &&& forall|i: int|
        0 <= i < s.len() ==> if hyphen_at(i) {
            #[trigger] s[i] == '-'
        } else {
            hex_digit(s[i])
        }
    &&& s[14] == '4'
}

/// Calls `uuid::Uuid::new_v4` and writes the result with its `Display`: a random
/// identifier of version 4 in lower-case digits, with hyphens. Its other digits are
/// left to chance.
#[verifier::external_body]
pub(crate) fn new_id() -> (id: String)
    ensures
        id_form(id@),
{
    uuid::Uuid::new_v4().to_string()
}

/// The identifier that a text names; nothing where it names none.
pub uninterp spec fn parsed_id(text: Seq<char>) -> Option<u128>;

/// Calls `uuid::Uuid::parse_str`, which reads an identifier in any of its notations, and
/// returns its number. The result is a function of the text.
#[verifier::external_body]
pub(crate) fn parse_id(text: &str) -> (id: Option<u128>)
    ensures
        id == parsed_id(text@),
{
    uuid::Uuid::parse_str(text).ok().map(|id| id.as_u128())
}

/// Whether `s` is written in lower-case hexadecimal digits.
pub open spec fn all_hex(s: Seq<char>) -> bool {
    forall|i: int| 0 <= i < s.len() ==> hex_digit(#[trigger] s[i])
}

/// Calls `uuid::Uuid::new_v4` and writes the result in its simple form: 32 random
/// lower-case hexadecimal digits.
#[verifier::external_body]
fn new_digits() -> (digits: String)
    ensures
        digits@.len() == 32,
        all_hex(digits@),
{
    uuid::Uuid::new_v4().simple().to_string()
}

/// A random password of 64 lower-case hexadecimal digits.
pub fn new_password() -> (password: String)
    ensures
        password@.len() == 64,
        all_hex(password@),
{
    new_digits().concat(new_digits().as_str())
}

} // verus!
