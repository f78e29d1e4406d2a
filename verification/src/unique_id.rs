//! The 128-bit identities of agents, sessions, entries and requests.

use vstd::prelude::*;
use vstd::arithmetic::power::pow;
use crate::text::digit_char;

verus! {

/// The hexadecimal digit of `id` at place `k`, counted from the most
/// significant of its 32 digits.
pub open spec fn hex_digit_at(id: u128, k: int) -> nat {
    ((id as nat) / (pow(16, (31 - k) as nat) as nat)) % 16
}

/// The lower-case character that stands for one hexadecimal digit.
pub open spec fn hex_char(d: nat) -> char {
    if d < 10 {
        digit_char(d)
    } else if d == 10 {
        'a'
    } else if d == 11 {
        'b'
    } else if d == 12 {
        'c'
    } else if d == 13 {
        'd'
    } else if d == 14 {
        'e'
    } else {
        'f'
    }
}

/// The digit that stands at place `i` of the hyphenated text, for a place
/// that holds no hyphen.
pub open spec fn digit_place(i: int) -> int {
    if i < 8 {
        i
    } else if i < 13 {
        i - 1
    } else if i < 18 {
        i - 2
    } else if i < 23 {
        i - 3
    } else {
        i - 4
    }
}

/// An identity as text: its 32 hexadecimal digits in lower case, in groups
/// of 8, 4, 4, 4 and 12 with a hyphen between them.
pub open spec fn hyphenated_text(id: u128) -> Seq<char> {
    Seq::new(
        36,
        |i: int|
            if i == 8 || i == 13 || i == 18 || i == 23 {
                '-'
            } else {
                hex_char(hex_digit_at(id, digit_place(i)))
            },
    )
}

/// What every randomly drawn identity has: the version digit 4 and the
/// two variant bits `10`.
pub open spec fn is_random_identity(id: u128) -> bool {
    hex_digit_at(id, 12) == 4 && 8 <= hex_digit_at(id, 16) < 12
}

/// Draws a fresh random identity with `uuid::Uuid::new_v4` and hands it
/// out as the 128-bit number that `Uuid::as_u128` gives. Trusted: the
/// contract states only what the generator fixes in every identity it
/// makes, the version digit 4 and the two variant bits `10`.
#[verifier::external_body]
pub(crate) fn fresh_id() -> (id: u128)
    ensures
        hex_digit_at(id, 12) == 4,
        8 <= hex_digit_at(id, 16) < 12,
{
    uuid::Uuid::new_v4().as_u128()
}

/// Writes an identity as text: `Uuid::from_u128` and then the `Display`
/// of `uuid::Uuid`. Trusted: the contract claims the hyphenated lower-case
/// form that the crate documents for it.
#[verifier::external_body]
pub(crate) fn id_text(id: u128) -> (s: String)
    ensures
        s@ == hyphenated_text(id),
{
    uuid::Uuid::from_u128(id).to_string()
}

} // verus!
