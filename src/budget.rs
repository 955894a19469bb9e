//! The D21 voting budget of a poll, from its number of seats.
use vstd::prelude::*;

verus! {

/// `floor(2w - (w - 2) * 1.618)`, with 1.618 taken as the exact rational
/// 1618 / 1000.
pub open spec fn plus_budget(winners: int) -> int {
    (2000 * winners - 1618 * (winners - 2)) / 1000
}

/// `floor(plus / 3)`.
pub open spec fn minus_budget(plus: int) -> int {
    plus / 3
}

/// The number of positive votes that a ballot may give in a poll with
/// `winners` seats.
///
/// The rational formula is evaluated exactly. For every seat count an
/// 8-bit integer can hold, the fractional part of `2w - (w - 2) * 1.618`
/// is zero or at least 0.001, so truncating the exact value agrees with
/// truncating its double-precision evaluation.
pub fn plus_votes_allowed_for(winners: u8) -> (r: u8)
    ensures
        r == plus_budget(winners as int),
        r <= 100,
{
    let w: u32 = winners as u32;
    assert(2000 * w - 1618 * (w - 2) == 382 * w + 3236);
    ((382 * w + 3236) / 1000) as u8
}

/// The number of negative votes that a ballot may give when `plus`
/// positive votes are allowed.
pub fn minus_votes_allowed_for(plus: u8) -> (r: u8)
    ensures
        r == minus_budget(plus as int),
{
    plus / 3
}

/// For every seat count from 2 to 100, the positive budget lies between 4
/// and 41, and the negative budget is at most the positive one.
pub proof fn lemma_budget_bounds(winners: int)
    requires
        2 <= winners <= 100,
    ensures
        4 <= plus_budget(winners) <= 41,
        0 <= minus_budget(plus_budget(winners)) <= plus_budget(winners),
{
}

} // verus!
