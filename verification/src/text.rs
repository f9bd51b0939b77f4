//! Decimal rendering of numbers in messages and descriptions.
use vstd::prelude::*;

verus! {

/// The decimal digit character for `d < 10`.
pub open spec fn digit_char(d: nat) -> char {
    ('0' as int + d) as char
}

/// The decimal rendering of a natural number, most significant digit first.
pub open spec fn decimal(n: nat) -> Seq<char>
    decreases n,
{
    if n < 10 {
        seq![digit_char(n)]
    } else {
        decimal(n / 10).push(digit_char(n % 10))
    }
}

/// Renders `n` with `ToString::to_string`.
/// Claimed of `<usize as ToString>::to_string` (the `Display` of `usize`):
/// the text is the decimal digits of `n`, most significant first, without
/// sign, padding or separators.
#[verifier::external_body]
pub(crate) fn decimal_string(n: usize) -> (text: String)
    ensures
        text@ == decimal(n as nat),
{
    n.to_string()
}

} // verus!
