//! Folder sizes written for people.

use vstd::prelude::*;
use human_repr::HumanCount;

verus! {

/// The character of a decimal digit.
pub open spec fn digit_char(d: nat) -> char {
    if d == 0 { '0' }
    else if d == 1 { '1' }
    else if d == 2 { '2' }
    else if d == 3 { '3' }
    else if d == 4 { '4' }
    else if d == 5 { '5' }
    else if d == 6 { '6' }
    else if d == 7 { '7' }
    else if d == 8 { '8' }
    else { '9' }
}

/// The decimal digits of `n`, without leading zeros.
pub open spec fn decimal(n: nat) -> Seq<char>
    decreases n,
{
    if n < 10 {
        seq![digit_char(n)]
    } else {
        decimal(n / 10) + seq![digit_char(n % 10)]
    }
}

/// What `human_repr::HumanCount::human_count_bytes` shows for `n` bytes, such
/// as `123.5kB`.
pub uninterp spec fn human_count_bytes(n: u64) -> Seq<char>;

/// Whether `text` ends with `suffix`.
pub open spec fn ends_with(text: Seq<char>, suffix: Seq<char>) -> bool {
    suffix.len() <= text.len() && text.subrange(text.len() - suffix.len(), text.len() as int) == suffix
}

/// Calls `human_repr::HumanCount::human_count_bytes` and writes the result.
/// Claimed: the text is `human_count_bytes(n)`; below a thousand bytes it is
/// the number of bytes in decimal followed by `B` (the crate keeps one decimal
/// place at that scale and drops it when it is zero). Above, the crate
/// divides by 1000 while the value, rounded to the decimals of its scale (one
/// for `k` and `M`, two above), is at least 1000, and writes the scale's
/// letter before `B`: so from 10^(3i) bytes up to a little below 10^(3i+3)
/// the text ends with the letter of 10^(3i) (bounds kept at 999 * 10^(3i),
/// away from where rounding moves a value to the next scale). The number
/// written before the unit, which the crate rounds in floating point, is not
/// stated beyond `human_count_bytes(n)`.
#[verifier::external_body]
pub(crate) fn human_bytes(n: u64) -> (r: String)
    ensures
        r@ == human_count_bytes(n),
        n < 1000 ==> r@ == decimal(n as nat) + seq!['B'],
        1000 <= n < 999_000 ==> ends_with(r@, seq!['k', 'B']),
        1_000_000 <= n < 999_000_000 ==> ends_with(r@, seq!['M', 'B']),
        1_000_000_000 <= n < 999_000_000_000 ==> ends_with(r@, seq!['G', 'B']),
        1_000_000_000_000 <= n < 999_000_000_000_000 ==> ends_with(r@, seq!['T', 'B']),
        1_000_000_000_000_000 <= n < 999_000_000_000_000_000 ==> ends_with(r@, seq!['P', 'B']),
        1_000_000_000_000_000_000 <= n ==> ends_with(r@, seq!['E', 'B']),
{
    n.human_count_bytes().to_string()
}

} // verus!
