//! Ids of operations and watches: the values of uuids as 128-bit numbers.
use vstd::arithmetic::power::pow;
use vstd::prelude::*;
use crate::text::concat2;

verus! {

/// A uuid of the random kind: its version is 4 and its variant that of the
/// standard layout.
pub open spec fn is_random_uuid(id: u128) -> bool {
    &&& (id / 0x1000_0000_0000_0000_0000) % 16 == 4
    &&& (id / 0x4000_0000_0000_0000) % 4 == 2
}

/// The digit of `n` in lower-case hexadecimal.
pub open spec fn hex_char(n: int) -> char {
    if n < 10 {
        ('0' as int + n) as char
    } else {
        ('a' as int + n - 10) as char
    }
}

/// The `k`th of the 32 hexadecimal digits of an id, the highest first.
pub open spec fn id_digit(id: u128, k: int) -> char {
    hex_char((id as int / pow(16, (31 - k) as nat)) % 16)
}

/// The text of an id: 32 hexadecimal digits in groups of 8, 4, 4, 4 and 12
/// with hyphens between them.
pub open spec fn id_text(id: u128) -> Seq<char> {
    Seq::new(
        36,
        |i: int|
            if i == 8 || i == 13 || i == 18 || i == 23 {
                '-'
            } else if i < 8 {
                id_digit(id, i)
            } else if i < 13 {
                id_digit(id, i - 1)
            } else if i < 18 {
                id_digit(id, i - 2)
            } else if i < 23 {
                id_digit(id, i - 3)
            } else {
                id_digit(id, i - 4)
            },
    )
}

/// Calls `uuid::Uuid::new_v4`.  The contract claims of the random id that its
/// version and variant bits are set as for every uuid of that kind.
#[verifier::external_body]
fn fresh_id() -> (r: u128)
    ensures
        is_random_uuid(r),
{
    uuid::Uuid::new_v4().as_u128()
}

/// Formats the uuid with this value (`Display` of `uuid::Uuid`).  The contract
/// claims that the text is the lower-case hyphenated form.
#[verifier::external_body]
fn uuid_text(id: u128) -> (r: String)
    ensures
        r@ == id_text(id),
{
    uuid::Uuid::from_u128(id).to_string()
}

/// The id was drawn, by `fresh_id`.
pub closed spec fn was_drawn(id: u128) -> bool {
    call_ensures(fresh_id, (), id)
}

/// Draws a random id.
pub(crate) fn draw_id() -> (id: u128)
    ensures
        was_drawn(id),
        is_random_uuid(id),
{
    fresh_id()
}

/// The name of the temporary file that stands in for a file while it is
/// written.
pub fn temp_name(id: u128) -> (r: String)
    ensures
        r@ == ".atomo-tmp-"@ + id_text(id),
{
    concat2(".atomo-tmp-", uuid_text(id).as_str())
}

} // verus!
