//! Recognising which pattern a timestamp is written in.

use vstd::prelude::*;
use crate::calendar::{strptime, strptime_spec};
use crate::pattern::{TimestampPattern, PATTERN_COUNT};

verus! {

/// Whether the text `s` parses under the pattern `p`.
pub open spec fn fits(s: Seq<char>, p: TimestampPattern) -> bool {
    strptime_spec(s, p@) is Some
}

/// The first pattern of the candidate list under which `s` parses, if any.
pub open spec fn guessed_pattern(s: Seq<char>) -> Option<TimestampPattern> {
    if fits(s, TimestampPattern::DashedFullYear) {
        Some(TimestampPattern::DashedFullYear)
    } else if fits(s, TimestampPattern::CompactShortYear) {
        Some(TimestampPattern::CompactShortYear)
    } else if fits(s, TimestampPattern::CompactFullYear) {
        Some(TimestampPattern::CompactFullYear)
    } else if fits(s, TimestampPattern::DashedShortYear) {
        Some(TimestampPattern::DashedShortYear)
    } else if fits(s, TimestampPattern::TimeThenDate) {
        Some(TimestampPattern::TimeThenDate)
    } else {
        None
    }
}

/// A guess names a pattern that fits and that no fitting pattern precedes;
/// there is no guess exactly where no pattern fits.
pub proof fn lemma_guess_is_earliest_fit(s: Seq<char>)
    ensures
        match guessed_pattern(s) {
            Some(p) => fits(s, p) && forall|q: TimestampPattern|
                q.rank() < p.rank() ==> !fits(s, q),
            None => forall|q: TimestampPattern| !fits(s, q),
        },
{
}

/// Where a text fits a pattern, the guess is that pattern or one that
/// stands before it: among several that fit, the earliest wins.
pub proof fn lemma_earlier_pattern_wins(s: Seq<char>, p: TimestampPattern)
    requires
        fits(s, p),
    ensures
        guessed_pattern(s) matches Some(g) && g.rank() <= p.rank(),
{
}

/// Tries the patterns in candidate order on `row` and returns the first
/// under which it parses, or `None` where none does.
pub fn guess_time_format(row: &str) -> (r: Option<TimestampPattern>)
    ensures
        r == guessed_pattern(row@),
{
    let mut rank: usize = 0;
    while rank < PATTERN_COUNT
        invariant
            rank <= PATTERN_COUNT,
            forall|q: TimestampPattern| q.rank() < rank ==> !fits(row@, q),
        decreases PATTERN_COUNT - rank,
    {
        if let Some(pattern) = TimestampPattern::from_rank(rank) {
            if strptime(row, pattern.template()).is_some() {
                return Some(pattern);
            }
        }
        rank += 1;
    }
    None
}

} // verus!
