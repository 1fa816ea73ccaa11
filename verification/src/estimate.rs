//! From a batch of rows to the mean interval between their timestamps.

use vstd::prelude::*;
use crate::calendar::{strptime, strptime_spec};
use crate::field::{column_text, extract_column, split_fields};
use crate::instant::{calendar_nanos, millis_between, Instant};
use crate::pattern::TimestampPattern;
use crate::timeguess::{guess_time_format, guessed_pattern};

verus! {

/// Why a row gave no instant.
#[derive(Clone, Copy, Debug, PartialEq, Eq, Structural)]
pub enum RowError {
    /// The row has too few fields for the column asked for.
    Extraction,
    /// The field fits none of the known patterns.
    FormatGuess,
    /// The field fits a pattern, but what it reads as is no instant.
    Parse,
}

impl RowError {
    /// The text of [`RowError::message`].
    pub open spec fn message_text(self) -> Seq<char> {
        match self {
            RowError::Extraction => "couldn't get column from row"@,
            RowError::FormatGuess => "couldn't guess timestamp format"@,
            RowError::Parse => "couldn't parse timestamp"@,
        }
    }

    /// A short description of the error, for reports.
    pub fn message(self) -> (r: &'static str)
        ensures
            r@ == self.message_text(),
    {
        match self {
            RowError::Extraction => "couldn't get column from row",
            RowError::FormatGuess => "couldn't guess timestamp format",
            RowError::Parse => "couldn't parse timestamp",
        }
    }
}

/// Why a batch gave no sampling rate: its first bad row, and what is wrong
/// with it.
#[derive(Clone, Copy, Debug, PartialEq, Eq, Structural)]
pub struct EstimationError {
    /// Index of the first row that failed.
    pub row: usize,
    /// Why that row failed.
    pub cause: RowError,
}

/// The gaps between consecutive instants of a batch, summed up.
///
/// The mean interval is `total_millis / intervals` milliseconds, and the
/// sampling rate its reciprocal; a batch with no interval has no rate, which
/// callers report as zero.
#[derive(Clone, Copy, Debug, PartialEq, Eq, Structural)]
pub struct Samplerate {
    /// How many gaps were measured: one less than the number of instants,
    /// and zero for an empty batch.
    pub intervals: usize,
    /// The sum of the gaps, in whole milliseconds.
    pub total_millis: i128,
}

/// The instant that `text` denotes under `pattern`, in nanoseconds since
/// the epoch.
pub open spec fn timestamp_nanos(text: Seq<char>, pattern: TimestampPattern) -> Option<int> {
    match strptime_spec(text, pattern@) {
        Some(t) => calendar_nanos(t),
        None => None,
    }
}

/// The instant of one row, in nanoseconds since the epoch: that of its field
/// at `col`, under the pattern guessed for that field.
pub open spec fn row_instant(row: Seq<char>, delim: char, col: int) -> Result<int, RowError> {
    match column_text(row, delim, col) {
        None => Err(RowError::Extraction),
        Some(text) => match guessed_pattern(text) {
            None => Err(RowError::FormatGuess),
            Some(pattern) => match timestamp_nanos(text, pattern) {
                None => Err(RowError::Parse),
                Some(nanos) => Ok(nanos),
            },
        },
    }
}

/// The instants of all `rows`, in order, or the index and cause of the
/// first row that has none.
pub open spec fn instants_of(rows: Seq<Seq<char>>, delim: char, col: int) -> Result<
    Seq<int>,
    (int, RowError),
>
    decreases rows.len(),
{
    if rows.len() == 0 {
        Ok(Seq::empty())
    } else {
        match instants_of(rows.drop_last(), delim, col) {
            Err(e) => Err(e),
            Ok(times) => match row_instant(rows.last(), delim, col) {
                Err(cause) => Err((rows.len() - 1, cause)),
                Ok(nanos) => Ok(times.push(nanos)),
            },
        }
    }
}

/// How many gaps lie between `times`.
pub open spec fn interval_count(times: Seq<int>) -> nat {
    if times.len() == 0 {
        0
    } else {
        (times.len() - 1) as nat
    }
}

/// The whole milliseconds from each of `times` to the next, summed up.
pub open spec fn interval_sum(times: Seq<int>) -> int
    decreases times.len(),
{
    if times.len() < 2 {
        0
    } else {
        interval_sum(times.drop_last()) + millis_between(times.last(), times[times.len() - 2])
    }
}

/// The rows that an estimate looks at: the first `num_rows`, or all where
/// there are fewer.
pub open spec fn sampled_rows(rows: Seq<Seq<char>>, num_rows: int) -> Seq<Seq<char>> {
    if num_rows < rows.len() {
        rows.take(num_rows)
    } else {
        rows
    }
}

/// What an estimate over `rows` comes to: the number of gaps between the
/// instants of the sampled rows and the sum of those gaps in milliseconds,
/// or the index and cause of the first sampled row that has no instant.
pub open spec fn batch_estimate(rows: Seq<Seq<char>>, delim: char, num_rows: int, col: int) -> Result<
    (nat, int),
    (int, RowError),
> {
    match instants_of(sampled_rows(rows, num_rows), delim, col) {
        Ok(times) => Ok((interval_count(times), interval_sum(times))),
        Err(e) => Err(e),
    }
}

impl Samplerate {
    /// Measures the gaps between consecutive `instants`.
    pub fn from_instants(instants: &[Instant]) -> (r: Samplerate)
        ensures
            r.intervals == interval_count(instants.deep_view()),
            r.total_millis == interval_sum(instants.deep_view()),
    {
        let n = instants.len();
        let ghost times = instants.deep_view();
        if n == 0 {
            return Samplerate { intervals: 0, total_millis: 0 };
        }
        let mut total: i128 = 0;
        let mut i: usize = 1;
        while i < n
            invariant
                n == instants.len(),
                times == instants.deep_view(),
                1 <= i <= n,
                total == interval_sum(times.take(i as int)),
                -(i * 0x8000_0000_0000_0000) <= total <= i * 0x8000_0000_0000_0000,
            decreases n - i,
        {
            let gap = instants[i].millis_since(&instants[i - 1]);
            proof {
                assert(times.take(i + 1).drop_last() =~= times.take(i as int));
            }
            total = total + gap as i128;
            i += 1;
        }
        assert(times.take(n as int) =~= times);
        Samplerate { intervals: n - 1, total_millis: total }
    }
}

/// Reads `text` under `pattern` and returns the instant it denotes, or
/// `None` where the text does not fit or denotes no representable instant.
pub fn parse_timestamp(text: &str, pattern: TimestampPattern) -> (r: Option<Instant>)
    ensures
        match r {
            Some(instant) => timestamp_nanos(text@, pattern) == Some(instant@),
            None => timestamp_nanos(text@, pattern) is None,
        },
{
    match strptime(text, pattern.template()) {
        Some(t) => Instant::from_calendar(&t),
        None => None,
    }
}

/// The instant of one row: takes the field at `col`, guesses its pattern
/// and reads it under that pattern.
pub fn formatted_time(row: &str, delim: char, col: usize) -> (r: Result<Instant, RowError>)
    ensures
        match r {
            Ok(instant) => row_instant(row@, delim, col as int) == Ok::<int, RowError>(instant@),
            Err(cause) => row_instant(row@, delim, col as int) == Err::<int, RowError>(cause),
        },
{
    let text = match extract_column(row, delim, col) {
        Ok(text) => text,
        Err(_) => {
            return Err(RowError::Extraction);
        },
    };
    let pattern = match guess_time_format(text.as_str()) {
        Some(pattern) => pattern,
        None => {
            return Err(RowError::FormatGuess);
        },
    };
    match parse_timestamp(text.as_str(), pattern) {
        Some(instant) => Ok(instant),
        None => Err(RowError::Parse),
    }
}

/// The instants of a batch are those of its rows, one for one; a failure is
/// that of the first row without an instant.
pub proof fn lemma_instants_row_by_row(rows: Seq<Seq<char>>, delim: char, col: int)
    ensures
        match instants_of(rows, delim, col) {
            Ok(times) => {
                &&& times.len() == rows.len()
                &&& forall|i: int|
                    0 <= i < rows.len() ==> row_instant(#[trigger] rows[i], delim, col) == Ok::<
                        int,
                        RowError,
                    >(times[i])
            },
            Err((row, cause)) => {
                &&& 0 <= row < rows.len()
                &&& row_instant(rows[row], delim, col) == Err::<int, RowError>(cause)
                &&& forall|i: int|
                    0 <= i < row ==> row_instant(#[trigger] rows[i], delim, col) is Ok
            },
        },
    decreases rows.len(),
{
    if rows.len() > 0 {
        let shorter = rows.drop_last();
        lemma_instants_row_by_row(shorter, delim, col);
        assert forall|i: int| 0 <= i < shorter.len() implies #[trigger] rows[i] == shorter[i] by {}
    }
}

/// A row with too few fields fails the batch: with the extraction error at
/// that row where every row before it has an instant, and at an earlier row
/// otherwise.
pub proof fn lemma_short_row_fails(
    rows: Seq<Seq<char>>,
    delim: char,
    num_rows: int,
    col: int,
    row: int,
)
    requires
        0 <= col,
        0 <= row < rows.len(),
        row < num_rows,
        split_fields(rows[row], delim).len() <= col,
    ensures
        batch_estimate(rows, delim, num_rows, col) matches Err((failed, cause)) && (failed < row || (
            failed == row && cause == RowError::Extraction)),
{
    let batch = sampled_rows(rows, num_rows);
    lemma_instants_row_by_row(batch, delim, col);
    assert(row_instant(batch[row], delim, col) == Err::<int, RowError>(RowError::Extraction));
}

/// A batch of at most one sampled row, each with an instant, has an
/// estimate, and that estimate counts no interval.
pub proof fn lemma_degenerate_batch(rows: Seq<Seq<char>>, delim: char, num_rows: int, col: int)
    requires
        0 <= num_rows,
        num_rows <= 1 || rows.len() <= 1,
        forall|i: int|
            0 <= i < rows.len() && i < num_rows ==> row_instant(#[trigger] rows[i], delim, col) is Ok,
    ensures
        batch_estimate(rows, delim, num_rows, col) == Ok::<(nat, int), (int, RowError)>((0, 0)),
{
    let batch = sampled_rows(rows, num_rows);
    lemma_instants_row_by_row(batch, delim, col);
}

/// Instants a whole number of milliseconds apart are that many
/// milliseconds apart.
pub proof fn lemma_whole_millis(earlier: int, millis: int)
    ensures
        millis_between(earlier + millis * 1_000_000, earlier) == millis,
{
    assert((earlier + millis * 1_000_000) - earlier == millis * 1_000_000);
}

/// Where every gap between consecutive instants is `gap` milliseconds, the
/// gaps sum to `gap` times their number: the mean interval is `gap`.
pub proof fn lemma_uniform_rate(times: Seq<int>, gap: int)
    requires
        forall|i: int|
            0 < i < times.len() ==> millis_between(#[trigger] times[i], times[i - 1]) == gap,
    ensures
        interval_sum(times) == gap * interval_count(times),
    decreases times.len(),
{
    if times.len() >= 2 {
        let shorter = times.drop_last();
        assert forall|i: int| 0 < i < shorter.len() implies millis_between(
            #[trigger] shorter[i],
            shorter[i - 1],
        ) == gap by {
            assert(shorter[i] == times[i] && shorter[i - 1] == times[i - 1]);
        }
        lemma_uniform_rate(shorter, gap);
        let n = times.len() as int;
        assert(gap * (n - 2) + gap == gap * (n - 1)) by (nonlinear_arith);
    } else {
        assert(gap * 0 == 0);
    }
}

/// Sampled rows that all have instants, each `gap` milliseconds after the
/// one before it, have an estimate: as many intervals as there are rows
/// after the first, summing to `gap` times their number.
pub proof fn lemma_uniform_batch(
    rows: Seq<Seq<char>>,
    delim: char,
    num_rows: int,
    col: int,
    gap: int,
)
    requires
        0 <= num_rows,
        forall|i: int|
            0 <= i < sampled_rows(rows, num_rows).len() ==> row_instant(
                #[trigger] sampled_rows(rows, num_rows)[i],
                delim,
                col,
            ) is Ok,
        forall|i: int|
            0 < i < sampled_rows(rows, num_rows).len() ==> millis_between(
                row_instant(#[trigger] sampled_rows(rows, num_rows)[i], delim, col)->Ok_0,
                row_instant(sampled_rows(rows, num_rows)[i - 1], delim, col)->Ok_0,
            ) == gap,
    ensures
        batch_estimate(rows, delim, num_rows, col) matches Ok((count, total)) && total == gap
            * count && (count == sampled_rows(rows, num_rows).len() - 1 || (count == 0
            && sampled_rows(rows, num_rows).len() == 0)),
{
    let batch = sampled_rows(rows, num_rows);
    lemma_instants_row_by_row(batch, delim, col);
    let times = instants_of(batch, delim, col)->Ok_0;
    assert forall|i: int| 0 < i < times.len() implies millis_between(
        #[trigger] times[i],
        times[i - 1],
    ) == gap by {
        assert(row_instant(batch[i], delim, col) == Ok::<int, RowError>(times[i]));
    }
    lemma_uniform_rate(times, gap);
}

/// A failure among the first `k` rows is the failure of the whole batch.
pub proof fn lemma_failure_persists(rows: Seq<Seq<char>>, delim: char, col: int, k: int)
    requires
        0 <= k <= rows.len(),
        instants_of(rows.take(k), delim, col) is Err,
    ensures
        instants_of(rows, delim, col) == instants_of(rows.take(k), delim, col),
    decreases rows.len(),
{
    if k < rows.len() {
        assert(rows.drop_last().take(k) =~= rows.take(k));
        lemma_failure_persists(rows.drop_last(), delim, col, k);
    } else {
        assert(rows.take(k) =~= rows);
    }
}

/// Estimates the sampling rate of a batch of rows.
///
/// Looks at the first `num_rows` rows, takes from each the field at `col`
/// and reads it as an instant, and measures the gaps between consecutive
/// instants. The first row that gives no instant fails the whole batch.
pub fn infer_samplerate(rows: &[String], delim: char, num_rows: usize, col: usize) -> (r: Result<
    Samplerate,
    EstimationError,
>)
    ensures
        match r {
            Ok(rate) => batch_estimate(rows.deep_view(), delim, num_rows as int, col as int) == Ok::<
                (nat, int),
                (int, RowError),
            >((rate.intervals as nat, rate.total_millis as int)),
            Err(e) => batch_estimate(rows.deep_view(), delim, num_rows as int, col as int) == Err::<
                (nat, int),
                (int, RowError),
            >((e.row as int, e.cause)),
        },
{
    let n = if num_rows < rows.len() {
        num_rows
    } else {
        rows.len()
    };
    let ghost batch = sampled_rows(rows.deep_view(), num_rows as int);
    let mut instants: Vec<Instant> = Vec::new();
    let mut i: usize = 0;
    assert(instants.deep_view() =~= Seq::<int>::empty());
    while i < n
        invariant
            i <= n <= rows.len(),
            n == batch.len(),
            batch == sampled_rows(rows.deep_view(), num_rows as int),
            instants_of(batch.take(i as int), delim, col as int) == Ok::<Seq<int>, (int, RowError)>(
                instants.deep_view(),
            ),
        decreases n - i,
    {
        proof {
            assert(batch.take(i + 1).drop_last() =~= batch.take(i as int));
        }
        match formatted_time(rows[i].as_str(), delim, col) {
            Ok(instant) => {
                let ghost before = instants.deep_view();
                instants.push(instant);
                assert(instants.deep_view() =~= before.push(instant@));
            },
            Err(cause) => {
                proof {
                    lemma_failure_persists(batch, delim, col as int, i + 1);
                }
                return Err(EstimationError { row: i, cause });
            },
        }
        i += 1;
    }
    assert(batch.take(n as int) =~= batch);
    Ok(Samplerate::from_instants(instants.as_slice()))
}

} // verus!
