//! The fixed, ordered list of timestamp layouts that the crate recognises.

use vstd::prelude::*;

verus! {

/// How many patterns the candidate list holds.
pub const PATTERN_COUNT: usize = 5;

/// One layout of a date and time of day, with fractional seconds.
///
/// The variants stand in candidate order: where a timestamp fits several
/// patterns, the one declared first is preferred. A pattern's view is its
/// `strftime`-style template.
#[derive(Clone, Copy, Debug, PartialEq, Eq, Structural)]
pub enum TimestampPattern {
    /// `2015-07-09 23:08:08.123`
    DashedFullYear,
    /// `150709 23:08:08.123`
    CompactShortYear,
    /// `20150709 23:08:08.123`
    CompactFullYear,
    /// `15-07-09 23:08:08.123`
    DashedShortYear,
    /// `23:08:08.123 09-07-2015`
    TimeThenDate,
}

impl View for TimestampPattern {
    type V = Seq<char>;

    open spec fn view(&self) -> Seq<char> {
        match self {
            TimestampPattern::DashedFullYear => "%Y-%m-%d %H:%M:%S.%f"@,
            TimestampPattern::CompactShortYear => "%y%m%d %H:%M:%S.%f"@,
            TimestampPattern::CompactFullYear => "%Y%m%d %H:%M:%S.%f"@,
            TimestampPattern::DashedShortYear => "%y-%m-%d %H:%M:%S.%f"@,
            TimestampPattern::TimeThenDate => "%H:%M:%S.%f %d-%m-%Y"@,
        }
    }
}

/// Whether `format` is the template of one of the patterns.
pub open spec fn is_template(format: Seq<char>) -> bool {
    exists|p: TimestampPattern| p@ == format
}

impl TimestampPattern {
    /// The pattern's place in the candidate list, from 0.
    pub open spec fn spec_rank(self) -> usize {
        match self {
            TimestampPattern::DashedFullYear => 0,
            TimestampPattern::CompactShortYear => 1,
            TimestampPattern::CompactFullYear => 2,
            TimestampPattern::DashedShortYear => 3,
            TimestampPattern::TimeThenDate => 4,
        }
    }

    /// The pattern's place in the candidate list, from 0.
    #[verifier::when_used_as_spec(spec_rank)]
    pub fn rank(self) -> (r: usize)
        ensures
            r == self.spec_rank(),
            r < PATTERN_COUNT,
    {
        match self {
            TimestampPattern::DashedFullYear => 0,
            TimestampPattern::CompactShortYear => 1,
            TimestampPattern::CompactFullYear => 2,
            TimestampPattern::DashedShortYear => 3,
            TimestampPattern::TimeThenDate => 4,
        }
    }

    /// The pattern at place `rank` of the candidate list, if there is one.
    pub fn from_rank(rank: usize) -> (r: Option<TimestampPattern>)
        ensures
            r is Some <==> rank < PATTERN_COUNT,
            r matches Some(p) ==> p.rank() == rank,
    {
        if rank == 0 {
            Some(TimestampPattern::DashedFullYear)
        } else if rank == 1 {
            Some(TimestampPattern::CompactShortYear)
        } else if rank == 2 {
            Some(TimestampPattern::CompactFullYear)
        } else if rank == 3 {
            Some(TimestampPattern::DashedShortYear)
        } else if rank == 4 {
            Some(TimestampPattern::TimeThenDate)
        } else {
            None
        }
    }

    /// The pattern's `strftime`-style template.
    pub fn template(self) -> (r: &'static str)
        ensures
            r@ == self@,
    {
        match self {
            TimestampPattern::DashedFullYear => "%Y-%m-%d %H:%M:%S.%f",
            TimestampPattern::CompactShortYear => "%y%m%d %H:%M:%S.%f",
            TimestampPattern::CompactFullYear => "%Y%m%d %H:%M:%S.%f",
            TimestampPattern::DashedShortYear => "%y-%m-%d %H:%M:%S.%f",
            TimestampPattern::TimeThenDate => "%H:%M:%S.%f %d-%m-%Y",
        }
    }
}

/// Two patterns with the same rank are the same pattern.
pub proof fn lemma_rank_is_injective(p: TimestampPattern, q: TimestampPattern)
    requires
        p.rank() == q.rank(),
    ensures
        p == q,
{
}

} // verus!
