//! The dataset format: newline-separated rows of `index,timestamp,value`.
//!
//! A dataset is the text gathered from the instrument between two silences.
//! Each row that is not blank holds exactly three comma-separated fields, in
//! this order: an unsigned 32-bit sample index, a timestamp and a value, the
//! last two written as floating-point literals. Whitespace around a row and
//! around a field is ignored, so a carriage return before the newline is
//! harmless. One malformed row fails the whole dataset.
//!
//! Timestamps and values are kept as the literal text that was read: the
//! library checks that the text is a well-formed literal and hands it on
//! unchanged, so that no digit is lost before the consumer converts it.

use crate::numeric::{
    check_float, check_float_range, parse_u32, parse_u32_range, FloatFault, IntegerFault,
};
use crate::text::{
    decimal, push_decimal, split_on, split_ranges, string_from_range, to_chars, trim, trim_range,
};
use vstd::prelude::*;
use vstd::string::*;

verus! {

/// One sample of a dataset.
#[derive(Debug, Clone, PartialEq, Eq)]
pub struct DataPoint {
    pub index: u32,
    /// The timestamp as the floating-point literal that was read.
    pub timestamp: String,
    /// The value as the floating-point literal that was read.
    pub value: String,
}

/// The mathematical content of a [`DataPoint`].
pub struct DataPointView {
    pub index: u32,
    pub timestamp: Seq<char>,
    pub value: Seq<char>,
}

impl View for DataPoint {
    type V = DataPointView;

    open spec fn view(&self) -> DataPointView {
        DataPointView { index: self.index, timestamp: self.timestamp@, value: self.value@ }
    }
}

/// The contents of a vector of samples.
pub open spec fn points_view(points: Seq<DataPoint>) -> Seq<DataPointView> {
    points.map_values(|p: DataPoint| p@)
}

/// What is wrong with one row.
#[derive(Debug, Clone, Copy, PartialEq, Eq, Structural)]
pub enum RowFault {
    /// The row does not hold three fields; `found` is their number.
    ColumnCount { found: usize },
    InvalidIndex(IntegerFault),
    InvalidTimestamp(FloatFault),
    InvalidValue(FloatFault),
}

/// Why a dataset was rejected.
#[derive(Debug, Clone, Copy, PartialEq, Eq, Structural)]
pub enum CsvError {
    /// The row on the given line, counted from 1, is malformed.
    Row { line: usize, fault: RowFault },
    /// Every row is blank.
    NoDataPoints,
}

/// `n` as a `usize`, or `usize::MAX` if it does not fit.
pub open spec fn clamp_usize(n: nat) -> usize {
    if n > usize::MAX {
        usize::MAX
    } else {
        n as usize
    }
}

/// What one line of a dataset holds: nothing if it is blank, else a sample or a fault.
pub open spec fn parse_row(line: Seq<char>) -> Result<Option<DataPointView>, RowFault> {
    let row = trim(line);
    if row.len() == 0 {
        Ok(None)
    } else {
        let fields = split_on(row, ',');
        if fields.len() != 3 {
            Err(RowFault::ColumnCount { found: clamp_usize(fields.len()) })
        } else {
            match parse_u32(trim(fields[0])) {
                Err(fault) => Err(RowFault::InvalidIndex(fault)),
                Ok(index) => match check_float(trim(fields[1])) {
                    Err(fault) => Err(RowFault::InvalidTimestamp(fault)),
                    Ok(()) => match check_float(trim(fields[2])) {
                        Err(fault) => Err(RowFault::InvalidValue(fault)),
                        Ok(()) => Ok(
                            Some(
                                DataPointView {
                                    index,
                                    timestamp: trim(fields[1]),
                                    value: trim(fields[2]),
                                },
                            ),
                        ),
                    },
                },
            }
        }
    }
}

/// The samples of `lines`, in order, or the fault of the first malformed line.
pub open spec fn parse_lines(lines: Seq<Seq<char>>) -> Result<Seq<DataPointView>, CsvError>
    decreases lines.len(),
{
    if lines.len() == 0 {
        Ok(Seq::<DataPointView>::empty())
    } else {
        match parse_lines(lines.drop_last()) {
            Err(e) => Err(e),
            Ok(rows) => match parse_row(lines.last()) {
                Err(fault) => Err(CsvError::Row { line: clamp_usize(lines.len()), fault }),
                Ok(None) => Ok(rows),
                Ok(Some(point)) => Ok(rows.push(point)),
            },
        }
    }
}

/// The samples of a dataset, or why it is rejected.
pub open spec fn parse_csv(text: Seq<char>) -> Result<Seq<DataPointView>, CsvError> {
    match parse_lines(split_on(text, '\n')) {
        Err(e) => Err(e),
        Ok(rows) => if rows.len() == 0 {
            Err(CsvError::NoDataPoints)
        } else {
            Ok(rows)
        },
    }
}

impl CsvError {
    /// The line that the error points at, counted from 1.
    pub open spec fn spec_line(self) -> Option<usize> {
        match self {
            CsvError::Row { line, .. } => Some(line),
            CsvError::NoDataPoints => None,
        }
    }

    /// The error as a sentence.
    pub open spec fn text(self) -> Seq<char> {
        match self {
            CsvError::Row { line, fault } => match fault {
                RowFault::ColumnCount { found } => "Invalid CSV format at line "@ + decimal(
                    line as nat,
                ) + ": expected 3 columns, got "@ + decimal(found as nat),
                RowFault::InvalidIndex(f) => "Invalid index at line "@ + decimal(line as nat)
                    + ": "@ + f.text(),
                RowFault::InvalidTimestamp(f) => "Invalid timestamp at line "@ + decimal(
                    line as nat,
                ) + ": "@ + f.text(),
                RowFault::InvalidValue(f) => "Invalid value at line "@ + decimal(line as nat)
                    + ": "@ + f.text(),
            },
            CsvError::NoDataPoints => "No valid data points found in CSV"@,
        }
    }

    /// The line that the error points at, counted from 1.
    pub fn line(&self) -> (n: Option<usize>)
        ensures
            n == self.spec_line(),
    {
        match self {
            CsvError::Row { line, .. } => Some(*line),
            CsvError::NoDataPoints => None,
        }
    }

    /// The error as a sentence.
    pub fn message(&self) -> (s: String)
        ensures
            s@ == self.text(),
    {
        match self {
            CsvError::Row { line, fault } => {
                match fault {
                    RowFault::ColumnCount { found } => {
                        let mut s = String::from_str("Invalid CSV format at line ");
                        push_decimal(&mut s, *line as u64);
                        s.append(": expected 3 columns, got ");
                        push_decimal(&mut s, *found as u64);
                        s
                    },
                    RowFault::InvalidIndex(f) => {
                        let mut s = String::from_str("Invalid index at line ");
                        push_decimal(&mut s, *line as u64);
                        s.append(": ");
                        s.append(f.describe());
                        s
                    },
                    RowFault::InvalidTimestamp(f) => {
                        let mut s = String::from_str("Invalid timestamp at line ");
                        push_decimal(&mut s, *line as u64);
                        s.append(": ");
                        s.append(f.describe());
                        s
                    },
                    RowFault::InvalidValue(f) => {
                        let mut s = String::from_str("Invalid value at line ");
                        push_decimal(&mut s, *line as u64);
                        s.append(": ");
                        s.append(f.describe());
                        s
                    },
                }
            },
            CsvError::NoDataPoints => String::from_str("No valid data points found in CSV"),
        }
    }
}

/// The contents of what reading one row gave.
pub open spec fn row_result_view(r: Result<Option<DataPoint>, RowFault>) -> Result<
    Option<DataPointView>,
    RowFault,
> {
    match r {
        Ok(None) => Ok(None),
        Ok(Some(p)) => Ok(Some(p@)),
        Err(fault) => Err(fault),
    }
}

/// The contents of what parsing a dataset gave.
pub open spec fn rows_result_view(r: Result<Vec<DataPoint>, CsvError>) -> Result<
    Seq<DataPointView>,
    CsvError,
> {
    match r {
        Ok(points) => Ok(points_view(points@)),
        Err(e) => Err(e),
    }
}

/// The fault of a prefix of the lines is the fault of all of them.
pub proof fn lemma_fault_stays(lines: Seq<Seq<char>>, k: int)
    requires
        0 <= k <= lines.len(),
        parse_lines(lines.take(k)) is Err,
    ensures
        parse_lines(lines) == parse_lines(lines.take(k)),
    decreases lines.len() - k,
{
    if k == lines.len() {
        assert(lines.take(k) == lines);
    } else {
        assert(lines.take(k + 1).drop_last() == lines.take(k));
        lemma_fault_stays(lines, k + 1);
    }
}

/// Reads the row in `v[lo..hi]`.
pub fn parse_row_range(v: &Vec<char>, lo: usize, hi: usize) -> (r: Result<
    Option<DataPoint>,
    RowFault,
>)
    requires
        lo <= hi <= v.len(),
    ensures
        row_result_view(r) == parse_row(v@.subrange(lo as int, hi as int)),
{
    let (a, b) = trim_range(v, lo, hi);
    if a == b {
        return Ok(None);
    }
    let fields = split_ranges(v, a, b, ',');
    if fields.len() != 3 {
        return Err(RowFault::ColumnCount { found: fields.len() });
    }
    let (i0, i1) = trim_range(v, fields[0].0, fields[0].1);
    let (t0, t1) = trim_range(v, fields[1].0, fields[1].1);
    let (v0, v1) = trim_range(v, fields[2].0, fields[2].1);
    let index = match parse_u32_range(v, i0, i1) {
        Ok(index) => index,
        Err(fault) => {
            return Err(RowFault::InvalidIndex(fault));
        },
    };
    match check_float_range(v, t0, t1) {
        Ok(()) => {},
        Err(fault) => {
            return Err(RowFault::InvalidTimestamp(fault));
        },
    }
    match check_float_range(v, v0, v1) {
        Ok(()) => {},
        Err(fault) => {
            return Err(RowFault::InvalidValue(fault));
        },
    }
    Ok(
        Some(
            DataPoint {
                index,
                timestamp: string_from_range(v, t0, t1),
                value: string_from_range(v, v0, v1),
            },
        ),
    )
}

/// Parses a dataset into its samples, in the order of the rows.
///
/// Blank rows are skipped. The first malformed row rejects the dataset with
/// its line number, counted from 1; a dataset without any sample is rejected
/// too.
pub fn parse_csv_rows(csv_buffer: &str) -> (r: Result<Vec<DataPoint>, CsvError>)
    ensures
        rows_result_view(r) == parse_csv(csv_buffer@),
{
    let v = to_chars(csv_buffer);
    let bounds = split_ranges(&v, 0, v.len(), '\n');
    let ghost lines = split_on(csv_buffer@, '\n');
    let mut rows: Vec<DataPoint> = Vec::new();
    let mut k: usize = 0;
    proof {
        assert(v@.subrange(0, v.len() as int) == csv_buffer@);
        assert(lines.take(0) == Seq::<Seq<char>>::empty());
        assert(points_view(rows@) == Seq::<DataPointView>::empty());
    }
    while k < bounds.len()
        invariant
            k <= bounds.len(),
            lines == split_on(csv_buffer@, '\n'),
            bounds@.len() == lines.len(),
            forall|j: int|
                0 <= j < bounds@.len() ==> {
                    &&& (#[trigger] bounds@[j]).0 <= bounds@[j].1 <= v@.len()
                    &&& lines[j] == v@.subrange(bounds@[j].0 as int, bounds@[j].1 as int)
                },
            parse_lines(lines.take(k as int)) == Ok::<Seq<DataPointView>, CsvError>(
                points_view(rows@),
            ),
        decreases bounds.len() - k,
    {
        let (lo, hi) = bounds[k];
        proof {
            assert(lines.take(k + 1).drop_last() == lines.take(k as int));
            assert(lines.take(k + 1).last() == lines[k as int]);
        }
        match parse_row_range(&v, lo, hi) {
            Err(fault) => {
                proof {
                    lemma_fault_stays(lines, k + 1);
                }
                return Err(CsvError::Row { line: k + 1, fault });
            },
            Ok(None) => {},
            Ok(Some(point)) => {
                proof {
                    assert(points_view(rows@.push(point)) == points_view(rows@).push(point@));
                }
                rows.push(point);
            },
        }
        k += 1;
    }
    assert(lines.take(bounds.len() as int) == lines);
    if rows.len() == 0 {
        Err(CsvError::NoDataPoints)
    } else {
        Ok(rows)
    }
}

/// Parses a dataset into its samples; a rejected dataset gives the error as a sentence.
pub fn parse_csv_data(csv_buffer: &str) -> (r: Result<Vec<DataPoint>, String>)
    ensures
        match parse_csv(csv_buffer@) {
            Ok(rows) => r is Ok && points_view(r->Ok_0@) == rows,
            Err(e) => r is Err && r->Err_0@ == e.text(),
        },
{
    match parse_csv_rows(csv_buffer) {
        Ok(points) => Ok(points),
        Err(e) => Err(e.message()),
    }
}

/// A line that holds only whitespace.
pub open spec fn is_blank(line: Seq<char>) -> bool {
    trim(line).len() == 0
}

/// The sample that a well-formed line holds.
pub open spec fn sample_of(line: Seq<char>) -> DataPointView {
    parse_row(line)->Ok_0->Some_0
}

/// The lines that are not blank, in order.
pub open spec fn non_blank_lines(lines: Seq<Seq<char>>) -> Seq<Seq<char>> {
    lines.filter(|l: Seq<char>| !is_blank(l))
}

/// The samples of the lines that are not blank, in order.
pub open spec fn samples_of(lines: Seq<Seq<char>>) -> Seq<DataPointView> {
    non_blank_lines(lines).map_values(|l: Seq<char>| sample_of(l))
}

/// Where every line is well formed, the samples are those of the lines that
/// are not blank, one for each, in the order of the lines.
pub proof fn lemma_well_formed_lines(lines: Seq<Seq<char>>)
    requires
        forall|i: int| 0 <= i < lines.len() ==> parse_row(#[trigger] lines[i]) is Ok,
    ensures
        parse_lines(lines) == Ok::<Seq<DataPointView>, CsvError>(samples_of(lines)),
        samples_of(lines).len() == non_blank_lines(lines).len(),
    decreases lines.len(),
{
    reveal(Seq::filter);
    if lines.len() == 0 {
        assert(samples_of(lines) == Seq::<DataPointView>::empty());
    } else {
        let front = lines.drop_last();
        assert forall|i: int| 0 <= i < front.len() implies parse_row(#[trigger] front[i]) is Ok by {
            assert(front[i] == lines[i]);
        }
        lemma_well_formed_lines(front);
        assert(parse_row(lines[lines.len() - 1]) is Ok);
        if is_blank(lines.last()) {
            assert(non_blank_lines(lines) == non_blank_lines(front));
        } else {
            assert(non_blank_lines(lines) == non_blank_lines(front).push(lines.last()));
            assert(samples_of(lines) == samples_of(front).push(sample_of(lines.last())));
        }
    }
}

/// A dataset whose rows are all well formed, and not all blank, parses into
/// one sample for each row that is not blank, in the order of the rows.
pub proof fn lemma_well_formed_dataset(text: Seq<char>)
    requires
        forall|i: int|
            0 <= i < split_on(text, '\n').len() ==> parse_row(#[trigger] split_on(text, '\n')[i])
                is Ok,
        exists|i: int|
            0 <= i < split_on(text, '\n').len() && !is_blank(#[trigger] split_on(text, '\n')[i]),
    ensures
        parse_csv(text) == Ok::<Seq<DataPointView>, CsvError>(samples_of(split_on(text, '\n'))),
        parse_csv(text)->Ok_0.len() == non_blank_lines(split_on(text, '\n')).len(),
{
    let lines = split_on(text, '\n');
    lemma_well_formed_lines(lines);
    let i = choose|i: int| 0 <= i < lines.len() && !is_blank(#[trigger] lines[i]);
    lemma_non_blank_counts(lines, i);
}

/// A line that is not blank is among those kept.
pub proof fn lemma_non_blank_counts(lines: Seq<Seq<char>>, i: int)
    requires
        0 <= i < lines.len(),
        !is_blank(lines[i]),
    ensures
        non_blank_lines(lines).len() > 0,
    decreases lines.len(),
{
    reveal(Seq::filter);
    if i < lines.len() - 1 {
        assert(lines.drop_last()[i] == lines[i]);
        lemma_non_blank_counts(lines.drop_last(), i);
        assert(non_blank_lines(lines).len() >= non_blank_lines(lines.drop_last()).len());
    }
}

/// Blank lines do not count: among lines that are all well formed, any
/// number of blank lines may come or go, anywhere, and the samples stay
/// the same.
pub proof fn lemma_blank_lines_do_not_count(a: Seq<Seq<char>>, b: Seq<Seq<char>>)
    requires
        forall|i: int| 0 <= i < a.len() ==> parse_row(#[trigger] a[i]) is Ok,
        forall|i: int| 0 <= i < b.len() ==> parse_row(#[trigger] b[i]) is Ok,
        non_blank_lines(a) == non_blank_lines(b),
    ensures
        parse_lines(a) == parse_lines(b),
{
    lemma_well_formed_lines(a);
    lemma_well_formed_lines(b);
}

/// A blank line put in anywhere leaves the lines that are not blank as
/// they were, and so the samples of lines that are all well formed.
pub proof fn lemma_inserted_blank_line(lines: Seq<Seq<char>>, k: int, blank: Seq<char>)
    requires
        0 <= k <= lines.len(),
        is_blank(blank),
    ensures
        non_blank_lines(lines.take(k) + seq![blank] + lines.skip(k)) == non_blank_lines(lines),
        (forall|i: int| 0 <= i < lines.len() ==> parse_row(#[trigger] lines[i]) is Ok)
            ==> parse_lines(lines.take(k) + seq![blank] + lines.skip(k)) == parse_lines(lines),
{
    let keep = |l: Seq<char>| !is_blank(l);
    let longer = lines.take(k) + seq![blank] + lines.skip(k);
    reveal(Seq::filter);
    Seq::filter_distributes_over_add(lines.take(k), seq![blank], keep);
    Seq::filter_distributes_over_add(lines.take(k) + seq![blank], lines.skip(k), keep);
    Seq::filter_distributes_over_add(lines.take(k), lines.skip(k), keep);
    assert(lines.take(k) + lines.skip(k) == lines);
    assert(seq![blank].drop_last() == Seq::<Seq<char>>::empty());
    assert(seq![blank].last() == blank);
    assert(!keep(blank));
    assert(Seq::<Seq<char>>::empty().filter(keep) == Seq::<Seq<char>>::empty());
    assert(seq![blank].filter(keep) == Seq::<Seq<char>>::empty());
    assert(lines.take(k).filter(keep) + Seq::<Seq<char>>::empty() == lines.take(k).filter(keep));
    assert(non_blank_lines(longer) == non_blank_lines(lines));
    if forall|i: int| 0 <= i < lines.len() ==> parse_row(#[trigger] lines[i]) is Ok {
        assert forall|i: int| 0 <= i < longer.len() implies parse_row(#[trigger] longer[i])
            is Ok by {
            if i < k {
                assert(longer[i] == lines[i]);
            } else if i == k {
                assert(longer[i] == blank);
            } else {
                assert(longer[i] == lines[i - 1]);
            }
        }
        lemma_blank_lines_do_not_count(longer, lines);
    }
}

/// A malformed row after rows that are all well formed rejects the dataset,
/// with the number of its line, counted from 1, and its own fault.
pub proof fn lemma_first_malformed_row(text: Seq<char>, k: int)
    requires
        0 <= k < split_on(text, '\n').len(),
        parse_row(split_on(text, '\n')[k]) is Err,
        forall|j: int| 0 <= j < k ==> parse_row(#[trigger] split_on(text, '\n')[j]) is Ok,
    ensures
        parse_csv(text) == Err::<Seq<DataPointView>, CsvError>(
            CsvError::Row {
                line: clamp_usize((k + 1) as nat),
                fault: parse_row(split_on(text, '\n')[k])->Err_0,
            },
        ),
{
    let lines = split_on(text, '\n');
    let upto = lines.take(k + 1);
    let front = lines.take(k);
    assert(upto.drop_last() == front);
    assert(upto.last() == lines[k]);
    assert forall|i: int| 0 <= i < front.len() implies parse_row(#[trigger] front[i]) is Ok by {
        assert(front[i] == lines[i]);
    }
    lemma_well_formed_lines(front);
    lemma_fault_stays(lines, k + 1);
}

} // verus!
