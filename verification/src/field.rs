//! Splitting a row into fields and taking one of them.

use vstd::prelude::*;

verus! {

/// Whether `c` is white space: a character with Unicode's `White_Space`
/// property.
pub open spec fn is_space(c: char) -> bool {
    ||| '\u{9}' <= c <= '\u{d}'
    ||| c == ' '
    ||| c == '\u{85}'
    ||| c == '\u{a0}'
    ||| c == '\u{1680}'
    ||| '\u{2000}' <= c <= '\u{200a}'
    ||| c == '\u{2028}'
    ||| c == '\u{2029}'
    ||| c == '\u{202f}'
    ||| c == '\u{205f}'
    ||| c == '\u{3000}'
}

/// `s` without the white space it starts with.
pub open spec fn trim_start(s: Seq<char>) -> Seq<char>
    decreases s.len(),
{
    if s.len() > 0 && is_space(s.first()) {
        trim_start(s.drop_first())
    } else {
        s
    }
}

/// `s` without the white space it ends with.
pub open spec fn trim_end(s: Seq<char>) -> Seq<char>
    decreases s.len(),
{
    if s.len() > 0 && is_space(s.last()) {
        trim_end(s.drop_last())
    } else {
        s
    }
}

/// `s` without the white space around it.
pub open spec fn trimmed(s: Seq<char>) -> Seq<char> {
    trim_end(trim_start(s))
}

/// The index of the first `delim` in `s`, or the length of `s` where it
/// holds none.
pub open spec fn first_delimiter(s: Seq<char>, delim: char) -> nat
    decreases s.len(),
{
    if s.len() == 0 || s.first() == delim {
        0
    } else {
        1 + first_delimiter(s.drop_first(), delim)
    }
}

/// The fields of `s`: the stretches between its delimiters. A delimiter
/// that ends `s` closes the last field and opens no further one, so the
/// empty text has no field at all.
pub open spec fn split_fields(s: Seq<char>, delim: char) -> Seq<Seq<char>>
    decreases s.len(),
{
    let i = first_delimiter(s, delim) as int;
    if s.len() == 0 {
        Seq::empty()
    } else if i >= s.len() {
        seq![s]
    } else {
        seq![s.take(i)] + split_fields(s.skip(i + 1), delim)
    }
}

/// The field of `row` at the index `col`, trimmed, or `None` where the row
/// has no such field.
pub open spec fn column_text(row: Seq<char>, delim: char, col: int) -> Option<Seq<char>> {
    let fields = split_fields(row, delim);
    if 0 <= col < fields.len() {
        Some(trimmed(fields[col]))
    } else {
        None
    }
}

/// `first_delimiter` stays within `s`, passes over no delimiter, and stops
/// on one unless it reaches the end.
pub proof fn lemma_first_delimiter(s: Seq<char>, delim: char)
    ensures
        first_delimiter(s, delim) <= s.len(),
        forall|j: int| 0 <= j < first_delimiter(s, delim) ==> s[j] != delim,
        first_delimiter(s, delim) < s.len() ==> s[first_delimiter(s, delim) as int] == delim,
    decreases s.len(),
{
    if s.len() > 0 && s.first() != delim {
        let rest = s.drop_first();
        lemma_first_delimiter(rest, delim);
        assert forall|j: int| 0 <= j < first_delimiter(s, delim) implies s[j] != delim by {
            if j > 0 {
                assert(s[j] == rest[j - 1]);
            }
        }
    }
}

/// An index that no delimiter precedes, and that holds one or is the end
/// of `s`, is the one `first_delimiter` gives.
pub proof fn lemma_first_delimiter_is(s: Seq<char>, delim: char, k: int)
    requires
        0 <= k <= s.len(),
        forall|j: int| 0 <= j < k ==> s[j] != delim,
        k < s.len() ==> s[k] == delim,
    ensures
        first_delimiter(s, delim) == k,
{
    lemma_first_delimiter(s, delim);
}

/// No field holds the delimiter.
pub proof fn lemma_fields_hold_no_delimiter(s: Seq<char>, delim: char)
    ensures
        forall|k: int, j: int|
            0 <= k < split_fields(s, delim).len() && 0 <= j < split_fields(s, delim)[k].len()
                ==> split_fields(s, delim)[k][j] != delim,
    decreases s.len(),
{
    lemma_first_delimiter(s, delim);
    let i = first_delimiter(s, delim) as int;
    if s.len() > 0 && i < s.len() {
        let rest = s.skip(i + 1);
        lemma_fields_hold_no_delimiter(rest, delim);
        let fields = split_fields(s, delim);
        assert forall|k: int, j: int|
            0 <= k < fields.len() && 0 <= j < fields[k].len() implies fields[k][j] != delim by {
            if k > 0 {
                assert(fields[k] == split_fields(rest, delim)[k - 1]);
            }
        }
    }
}

/// A delimiter put after a text that does not end in one adds no field.
pub proof fn lemma_trailing_delimiter_adds_no_field(s: Seq<char>, delim: char)
    requires
        s.len() > 0,
        s.last() != delim,
    ensures
        split_fields(s.push(delim), delim) == split_fields(s, delim),
    decreases s.len(),
{
    lemma_first_delimiter(s, delim);
    let i = first_delimiter(s, delim) as int;
    let t = s.push(delim);
    assert forall|j: int| 0 <= j < i implies t[j] != delim by {
        assert(t[j] == s[j]);
    }
    lemma_first_delimiter_is(t, delim, i);
    if i < s.len() {
        assert(t.take(i) =~= s.take(i));
        assert(t.skip(i + 1) =~= s.skip(i + 1).push(delim));
        lemma_trailing_delimiter_adds_no_field(s.skip(i + 1), delim);
    } else {
        assert(t.take(i) =~= s);
        assert(split_fields(t.skip(i + 1), delim) =~= Seq::empty());
    }
}

/// White space up to an index that holds none, or is the end of `s`, is
/// what `trim_start` drops.
pub proof fn lemma_trim_start_is(s: Seq<char>, from: int)
    requires
        0 <= from <= s.len(),
        forall|j: int| 0 <= j < from ==> is_space(s[j]),
        from < s.len() ==> !is_space(s[from]),
    ensures
        trim_start(s) == s.skip(from),
    decreases from,
{
    if from > 0 {
        let rest = s.drop_first();
        assert forall|j: int| 0 <= j < from - 1 implies is_space(rest[j]) by {
            assert(rest[j] == s[j + 1]);
        }
        lemma_trim_start_is(rest, from - 1);
        assert(rest.skip(from - 1) =~= s.skip(from));
    } else {
        assert(s.skip(0) =~= s);
    }
}

/// White space from an index on, which follows a character that is none
/// or is the start of `s`, is what `trim_end` drops.
pub proof fn lemma_trim_end_is(s: Seq<char>, to: int)
    requires
        0 <= to <= s.len(),
        forall|j: int| to <= j < s.len() ==> is_space(s[j]),
        to > 0 ==> !is_space(s[to - 1]),
    ensures
        trim_end(s) == s.take(to),
    decreases s.len() - to,
{
    if to < s.len() {
        let rest = s.drop_last();
        lemma_trim_end_is(rest, to);
        assert(rest.take(to) =~= s.take(to));
    } else {
        assert(s.take(to) =~= s);
    }
}

/// Whether `c` is white space.
pub fn is_whitespace(c: char) -> (r: bool)
    ensures
        r == is_space(c),
{
    ('\u{9}' <= c && c <= '\u{d}') || c == ' ' || c == '\u{85}' || c == '\u{a0}' || c == '\u{1680}'
        || ('\u{2000}' <= c && c <= '\u{200a}') || c == '\u{2028}' || c == '\u{2029}'
        || c == '\u{202f}' || c == '\u{205f}' || c == '\u{3000}'
}

/// Why a field could not be taken from a row: the column is out of range.
#[derive(Clone, Copy, Debug, PartialEq, Eq, Structural)]
pub struct ExtractionError {
    /// The index that was asked for.
    pub column: usize,
    /// How many fields the row has.
    pub fields: usize,
}

/// The fields of `row`, in order, as owned strings.
pub fn split_row(row: &str, delim: char) -> (fields: Vec<String>)
    ensures
        fields.deep_view() == split_fields(row@, delim),
{
    let n = row.unicode_len();
    let mut fields: Vec<String> = Vec::new();
    let mut start: usize = 0;
    let mut i: usize = 0;
    assert(row@.skip(0) =~= row@);
    for c in chars: row.chars()
        invariant
            n == row@.len(),
            chars.seq() == row@,
            i == chars.index(),
            start <= i <= n,
            forall|j: int| start <= j < i ==> row@[j] != delim,
            split_fields(row@, delim) == fields.deep_view() + split_fields(
                row@.skip(start as int),
                delim,
            ),
    {
        if c == delim {
            let field = row.substring_char(start, i).to_owned();
            proof {
                let rest = row@.skip(start as int);
                lemma_first_delimiter_is(rest, delim, i - start);
                assert(rest.take(i - start) =~= row@.subrange(start as int, i as int));
                assert(rest.skip(i - start + 1) =~= row@.skip(i + 1));
            }
            let ghost before = fields.deep_view();
            fields.push(field);
            assert(fields.deep_view() =~= before.push(field@));
            start = i + 1;
        }
        i += 1;
    }
    proof {
        let rest = row@.skip(start as int);
        lemma_first_delimiter_is(rest, delim, rest.len() as int);
    }
    if start < n {
        let field = row.substring_char(start, n).to_owned();
        let ghost before = fields.deep_view();
        fields.push(field);
        assert(fields.deep_view() =~= before.push(field@));
    }
    fields
}

/// `s` without the white space around it.
pub fn trim(s: &str) -> (r: &str)
    ensures
        r@ == trimmed(s@),
{
    let n = s.unicode_len();
    let mut from: usize = 0;
    let mut to: usize = 0;
    let mut i: usize = 0;
    for c in chars: s.chars()
        invariant
            n == s@.len(),
            chars.seq() == s@,
            i == chars.index(),
            from <= to <= i <= n,
            to == 0 ==> from == 0,
            forall|j: int| 0 <= j < from ==> is_space(s@[j]),
            forall|j: int| to <= j < i ==> is_space(s@[j]),
            to > 0 ==> from < to && !is_space(s@[from as int]) && !is_space(s@[to - 1]),
    {
        if !is_whitespace(c) {
            if to == 0 {
                from = i;
            }
            to = i + 1;
        }
        i += 1;
    }
    proof {
        if to == 0 {
            lemma_trim_start_is(s@, n as int);
            lemma_trim_end_is(s@.skip(n as int), 0);
        } else {
            let rest = s@.skip(from as int);
            lemma_trim_start_is(s@, from as int);
            lemma_trim_end_is(rest, to - from);
            assert(rest.take(to - from) =~= s@.subrange(from as int, to as int));
        }
    }
    s.substring_char(from, to)
}

/// Splits `row` on `delim` and returns the field at the index `col`, without
/// the white space around it. Fails exactly where the row has `col` fields
/// or fewer.
pub fn extract_column(row: &str, delim: char, col: usize) -> (r: Result<String, ExtractionError>)
    ensures
        match r {
            Ok(text) => column_text(row@, delim, col as int) == Some(text@),
            Err(e) => {
                &&& column_text(row@, delim, col as int) is None
                &&& e.column == col
                &&& e.fields == split_fields(row@, delim).len()
            },
        },
{
    let fields = split_row(row, delim);
    if col < fields.len() {
        Ok(trim(fields[col].as_str()).to_owned())
    } else {
        Err(ExtractionError { column: col, fields: fields.len() })
    }
}

} // verus!
