//! Textual renderings of numbers and UUIDs, as specification functions and
//! as the std/uuid formatting calls that produce them.

use vstd::arithmetic::power::pow;
use vstd::prelude::*;

verus! {

/// The ASCII digit or lower-case letter for a value below 16.
pub open spec fn hex_char(d: int) -> char {
    if d < 10 {
        (48 + d) as char
    } else {
        (87 + d) as char
    }
}

/// Decimal rendering of `n`, most significant digit first, no leading zeros.
pub open spec fn decimal_digits(n: nat) -> Seq<char>
    decreases n,
{
    if n < 10 {
        seq![hex_char(n as int)]
    } else {
        decimal_digits(n / 10).push(hex_char((n % 10) as int))
    }
}

/// Lower-case hexadecimal rendering of `n`, no leading zeros.
pub open spec fn hex_digits(n: nat) -> Seq<char>
    decreases n,
{
    if n < 16 {
        seq![hex_char(n as int)]
    } else {
        hex_digits(n / 16).push(hex_char((n % 16) as int))
    }
}

/// Index into the 32 hex digits of a UUID for text position `i` of its
/// hyphenated form.
pub open spec fn uuid_digit_index(i: int) -> int {
    if i < 8 {
        i
    } else if i < 13 {
        i - 1
    } else if i < 18 {
        i - 2
    } else if i < 23 {
        i - 3
    } else {
        i - 4
    }
}

/// The `j`-th hex digit (0 = most significant) of a 128-bit value.
pub open spec fn uuid_nibble(value: u128, j: int) -> int {
    (value as int / pow(16, (31 - j) as nat)) % 16
}

/// Hyphenated lower-case form `xxxxxxxx-xxxx-xxxx-xxxx-xxxxxxxxxxxx` of a UUID.
pub open spec fn uuid_hyphenated(value: u128) -> Seq<char> {
    Seq::new(
        36,
        |i: int|
            if i == 8 || i == 13 || i == 18 || i == 23 {
                '-'
            } else {
                hex_char(uuid_nibble(value, uuid_digit_index(i)))
            },
    )
}

/// Renders `n` in decimal (`u64`'s `Display`).
#[verifier::external_body]
pub(crate) fn decimal_text(n: u64) -> (s: String)
    ensures
        s@ == decimal_digits(n as nat),
{
    n.to_string()
}

/// Renders `n` in lower-case hexadecimal (`u16`'s `LowerHex`).
#[verifier::external_body]
pub(crate) fn lower_hex_text(n: u16) -> (s: String)
    ensures
        s@ == hex_digits(n as nat),
{
    format!("{:x}", n)
}

/// Renders a UUID given by its 128-bit value through `uuid::Uuid`'s
/// `Display`, which writes the hyphenated lower-case form.
#[verifier::external_body]
pub(crate) fn uuid_text(value: u128) -> (s: String)
    ensures
        s@ == uuid_hyphenated(value),
{
    uuid::Uuid::from_u128(value).to_string()
}

} // verus!
