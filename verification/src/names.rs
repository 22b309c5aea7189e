//! Numbered labels ("Track 3", "Scene 12").
use vstd::prelude::*;

verus! {

pub open spec fn digit_char(d: nat) -> char {
    (48 + d) as char
}

/// Decimal digits of `n`, most significant first, without leading zeros.
pub open spec fn spec_decimal(n: nat) -> Seq<char>
    decreases n,
{
    if n < 10 {
        seq![digit_char(n)]
    } else {
        spec_decimal(n / 10).push(digit_char(n % 10))
    }
}

/// `prefix` followed by `n` in decimal. Calls std's `format!`, whose
/// `Display` for unsigned integers writes the decimal digits without
/// sign, padding or leading zeros.
#[verifier::external_body]
pub(crate) fn numbered_label(prefix: &str, n: usize) -> (label: String)
    ensures
        label@ == prefix@ + spec_decimal(n as nat),
{
    format!("{}{}", prefix, n)
}

} // verus!
