//! Fresh identifiers.
use vstd::prelude::*;
use crate::text;

verus! {

/// A lower-case hexadecimal digit.
pub open spec fn hex(c: char) -> bool {
    text::digit(c) || 'a' <= c <= 'f'
}

/// Thirty-two lower-case hexadecimal digits.
pub open spec fn plain_uuid(s: Seq<char>) -> bool {
    s.len() == 32 && forall|i: int| 0 <= i < s.len() ==> hex(#[trigger] s[i])
}

/// Thirty-two lower-case hexadecimal digits in groups of 8, 4, 4, 4 and 12.
pub open spec fn grouped_uuid(s: Seq<char>) -> bool {
    s.len() == 36 && forall|i: int|
        0 <= i < s.len() ==> if i == 8 || i == 13 || i == 18 || i == 23 {
            #[trigger] s[i] == '-'
        } else {
            hex(s[i])
        }
}

/// `uuid::Uuid::new_v4`, written by `Uuid::simple`: a random number as 32
/// lower-case hexadecimal digits. Which number it is depends on chance.
#[verifier::external_body]
fn random_plain() -> (r: String)
    ensures
        plain_uuid(r@),
{
    uuid::Uuid::new_v4().simple().to_string()
}

/// `uuid::Uuid::new_v4`, written by its `Display`: a random number as 32
/// lower-case hexadecimal digits in five groups with hyphens between them.
/// Which number it is depends on chance.
#[verifier::external_body]
fn random_grouped() -> (r: String)
    ensures
        grouped_uuid(r@),
{
    uuid::Uuid::new_v4().to_string()
}

/// A fresh identifier for an account.
pub fn new_id() -> (r: String)
    ensures
        grouped_uuid(r@),
{
    random_grouped()
}

/// Whether a text is the identifier of a login.
pub open spec fn login_id(s: Seq<char>) -> bool {
    exists|u: Seq<char>| #[trigger] plain_uuid(u) && s == "wb_"@ + u
}

/// A fresh identifier for a login.
pub fn new_login_id() -> (r: String)
    ensures
        login_id(r@),
{
    let id: String = random_plain();
    let r: String = text::concat("wb_", id.as_str());
    assert(plain_uuid(id@) && r@ == "wb_"@ + id@);
    r
}

} // verus!
