use vstd::prelude::*;

verus! {

/// The character of decimal digit `d`.
pub open spec fn digit(d: nat) -> char {
    (48 + d) as char
}

/// The decimal digits of `n`, without leading zeros.
pub open spec fn decimal(n: nat) -> Seq<char>
    decreases n,
{
    if n < 10 {
        seq![digit(n)]
    } else {
        decimal(n / 10).push(digit(n % 10))
    }
}

/// The decimal text of `n`, with a leading `-` when it is negative.
pub open spec fn signed_decimal(n: int) -> Seq<char> {
    if n < 0 {
        seq!['-'] + decimal((-n) as nat)
    } else {
        decimal(n as nat)
    }
}

/// Formats with `itoa::Buffer::format`. Claimed, as itoa documents it (the
/// decimal conversion of `core::fmt`): the decimal digits of `n`.
#[verifier::external_body]
pub(crate) fn format_u128(n: u128) -> (r: String)
    ensures
        r@ == decimal(n as nat),
{
    itoa::Buffer::new().format(n).to_owned()
}

/// Formats with `itoa::Buffer::format`. Claimed: the decimal digits of `n`.
#[verifier::external_body]
pub(crate) fn format_u64(n: u64) -> (r: String)
    ensures
        r@ == decimal(n as nat),
{
    itoa::Buffer::new().format(n).to_owned()
}

/// Formats with `itoa::Buffer::format`. Claimed: the decimal digits of `n`,
/// after a `-` when `n` is negative.
#[verifier::external_body]
pub(crate) fn format_i64(n: i64) -> (r: String)
    ensures
        r@ == signed_decimal(n as int),
{
    itoa::Buffer::new().format(n).to_owned()
}

} // verus!
