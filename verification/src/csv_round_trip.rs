//! Writing samples out as a dataset and reading them back gives the same samples.

use crate::csv::{parse_csv, parse_lines, parse_row, CsvError, DataPointView};
use crate::numeric::{
    accumulate_digits, all_digits, is_decimal_number, is_exponent, is_float_literal, is_mantissa,
    is_sign, is_word, parse_u32, IntegerFault,
};
use crate::text::{
    decimal, digit_char, digit_value, is_digit, is_whitespace, lemma_split_joins_last_part,
    lemma_split_opens_part, lemma_split_without_separator, split_on, trim, trim_end, trim_start,
};
use vstd::prelude::*;

verus! {

/// The row that lists a sample: index, timestamp and value, with commas between.
pub open spec fn row_text(point: DataPointView) -> Seq<char> {
    decimal(point.index as nat) + seq![','] + point.timestamp + seq![','] + point.value
}

/// The dataset that lists the samples in order, one row each, every row
/// ended by a newline.
pub open spec fn dataset_text(rows: Seq<DataPointView>) -> Seq<char>
    decreases rows.len(),
{
    if rows.len() == 0 {
        Seq::<char>::empty()
    } else {
        dataset_text(rows.drop_last()) + row_text(rows.last()) + seq!['\n']
    }
}

/// A sample whose timestamp and value are floating-point literals.
pub open spec fn is_sample(point: DataPointView) -> bool {
    is_float_literal(point.timestamp) && is_float_literal(point.value)
}

/// The characters that a number is written with: digits, signs, the point, and letters.
pub open spec fn is_number_char(c: char) -> bool {
    is_digit(c) || is_sign(c) || c == '.' || ('a' <= c && c <= 'z') || ('A' <= c && c <= 'Z')
}

/// No number is written with a comma, a newline or whitespace.
pub proof fn lemma_number_chars_are_plain(c: char)
    requires
        is_number_char(c),
    ensures
        c != ',',
        c != '\n',
        !is_whitespace(c),
{
}

/// An exponent is written with number characters.
proof fn lemma_exponent_chars(s: Seq<char>)
    requires
        is_exponent(s),
    ensures
        forall|i: int| 0 <= i < s.len() ==> is_number_char(#[trigger] s[i]),
{
    assert forall|i: int| 0 <= i < s.len() implies is_number_char(#[trigger] s[i]) by {
        if all_digits(s.skip(1)) {
            if i >= 1 {
                assert(s[i] == s.skip(1)[i - 1]);
            }
        } else {
            if i >= 2 {
                assert(s[i] == s.skip(2)[i - 2]);
            }
        }
    }
}

/// A mantissa is not empty and is written with number characters.
proof fn lemma_mantissa_chars(s: Seq<char>)
    requires
        is_mantissa(s),
    ensures
        s.len() > 0,
        forall|i: int| 0 <= i < s.len() ==> is_number_char(#[trigger] s[i]),
{
    if s.len() >= 1 && all_digits(s) {
    } else {
        let k = choose|k: int|
            0 <= k < s.len() && s[k] == '.' && all_digits(#[trigger] s.take(k)) && all_digits(
                s.skip(k + 1),
            );
        assert forall|i: int| 0 <= i < s.len() implies is_number_char(#[trigger] s[i]) by {
            if i < k {
                assert(s[i] == s.take(k)[i]);
            } else if i > k {
                assert(s[i] == s.skip(k + 1)[i - k - 1]);
            }
        }
    }
}

/// A decimal number is not empty and is written with number characters.
proof fn lemma_decimal_number_chars(s: Seq<char>)
    requires
        is_decimal_number(s),
    ensures
        s.len() > 0,
        forall|i: int| 0 <= i < s.len() ==> is_number_char(#[trigger] s[i]),
{
    let m = choose|m: int|
        0 <= m <= s.len() && is_mantissa(#[trigger] s.take(m)) && (m == s.len() || is_exponent(
            s.skip(m),
        ));
    lemma_mantissa_chars(s.take(m));
    if m < s.len() {
        lemma_exponent_chars(s.skip(m));
    }
    assert forall|i: int| 0 <= i < s.len() implies is_number_char(#[trigger] s[i]) by {
        if i < m {
            assert(s[i] == s.take(m)[i]);
        } else {
            assert(s[i] == s.skip(m)[i - m]);
        }
    }
}

/// A word spelled in letters is written with number characters.
proof fn lemma_word_chars(s: Seq<char>, lower: Seq<char>, upper: Seq<char>)
    requires
        is_word(s, lower, upper),
        forall|k: int| 0 <= k < lower.len() ==> is_number_char(#[trigger] lower[k]),
        forall|k: int| 0 <= k < lower.len() ==> is_number_char(#[trigger] upper[k]),
    ensures
        forall|i: int| 0 <= i < s.len() ==> is_number_char(#[trigger] s[i]),
{
    assert forall|i: int| 0 <= i < s.len() implies is_number_char(#[trigger] s[i]) by {
        assert(s[i] == lower[i] || s[i] == upper[i]);
    }
}

/// A floating-point literal is not empty and is written with number characters.
pub proof fn lemma_float_literal_chars(s: Seq<char>)
    requires
        is_float_literal(s),
    ensures
        s.len() > 0,
        forall|i: int| 0 <= i < s.len() ==> is_number_char(#[trigger] s[i]),
{
    let from: int = if s.len() > 0 && is_sign(s[0]) {
        1
    } else {
        0
    };
    let body = s.skip(from);
    assert(s.skip(0) == s);
    reveal_strlit("inf");
    reveal_strlit("INF");
    reveal_strlit("infinity");
    reveal_strlit("INFINITY");
    reveal_strlit("nan");
    reveal_strlit("NAN");
    if is_decimal_number(body) {
        lemma_decimal_number_chars(body);
    } else if is_word(body, "inf"@, "INF"@) {
        lemma_word_chars(body, "inf"@, "INF"@);
    } else if is_word(body, "infinity"@, "INFINITY"@) {
        lemma_word_chars(body, "infinity"@, "INFINITY"@);
    } else {
        lemma_word_chars(body, "nan"@, "NAN"@);
    }
    assert forall|i: int| 0 <= i < s.len() implies is_number_char(#[trigger] s[i]) by {
        if i >= from {
            assert(s[i] == body[i - from]);
        }
    }
}

/// The digit written for a number below ten is a digit and stands for that number.
pub proof fn lemma_digit_char(d: nat)
    requires
        d < 10,
    ensures
        is_digit(digit_char(d)),
        digit_value(digit_char(d)) == d,
{
}

/// A numeral is not empty and is written with digits.
pub proof fn lemma_decimal_is_digits(n: nat)
    ensures
        decimal(n).len() > 0,
        forall|i: int| 0 <= i < decimal(n).len() ==> is_digit(#[trigger] decimal(n)[i]),
    decreases n,
{
    if n >= 10 {
        lemma_decimal_is_digits(n / 10);
    }
}

/// Reading the numeral of a number gives the number.
pub proof fn lemma_decimal_reads_back(n: nat)
    requires
        n <= u32::MAX,
    ensures
        accumulate_digits(decimal(n)) == Ok::<nat, IntegerFault>(n),
        parse_u32(decimal(n)) == Ok::<u32, IntegerFault>(n as u32),
    decreases n,
{
    lemma_decimal_is_digits(n);
    let s = decimal(n);
    let d = n % 10;
    lemma_digit_char(d);
    if n >= 10 {
        lemma_decimal_reads_back(n / 10);
        assert(s.drop_last() == decimal(n / 10));
        assert(s.last() == digit_char(d));
        assert(n == (n / 10) * 10 + d);
    } else {
        assert(s == seq![digit_char(n)]);
        assert(s.drop_last() == Seq::<char>::empty());
        assert(s.last() == digit_char(d));
        assert(accumulate_digits(s.drop_last()) == Ok::<nat, IntegerFault>(0));
    }
    assert(accumulate_digits(s) == Ok::<nat, IntegerFault>(n));
    assert(is_digit(s[0]));
}

/// Text that neither starts nor ends with whitespace is trimmed already.
pub proof fn lemma_trim_keeps_plain_text(s: Seq<char>)
    requires
        s.len() > 0,
        !is_whitespace(s[0]),
        !is_whitespace(s.last()),
    ensures
        trim(s) == s,
{
    assert(trim_start(s) == s);
    assert(trim_end(s) == s);
}

/// The row that lists a sample reads back as the sample.
pub proof fn lemma_row_round_trip(point: DataPointView)
    requires
        is_sample(point),
    ensures
        parse_row(row_text(point)) == Ok::<Option<DataPointView>, crate::csv::RowFault>(
            Some(point),
        ),
        forall|i: int| 0 <= i < row_text(point).len() ==> #[trigger] row_text(point)[i] != '\n',
{
    let index = decimal(point.index as nat);
    let row = row_text(point);
    lemma_decimal_is_digits(point.index as nat);
    lemma_decimal_reads_back(point.index as nat);
    lemma_float_literal_chars(point.timestamp);
    lemma_float_literal_chars(point.value);
    assert forall|i: int| 0 <= i < point.timestamp.len() implies point.timestamp[i] != ',' by {
        lemma_number_chars_are_plain(point.timestamp[i]);
    }
    assert forall|i: int| 0 <= i < point.value.len() implies point.value[i] != ',' by {
        lemma_number_chars_are_plain(point.value[i]);
    }
    lemma_split_without_separator(index, ',');
    lemma_split_opens_part(index, point.timestamp, ',');
    lemma_split_opens_part(index + seq![','] + point.timestamp, point.value, ',');
    let fields = split_on(row, ',');
    assert(fields == seq![index, point.timestamp, point.value]);
    lemma_number_chars_are_plain(point.timestamp[0]);
    lemma_number_chars_are_plain(point.timestamp.last());
    lemma_number_chars_are_plain(point.value[0]);
    lemma_number_chars_are_plain(point.value.last());
    assert(row[0] == index[0]);
    assert(row.last() == point.value.last());
    lemma_number_chars_are_plain(index[0]);
    lemma_number_chars_are_plain(index.last());
    lemma_trim_keeps_plain_text(row);
    lemma_trim_keeps_plain_text(index);
    lemma_trim_keeps_plain_text(point.timestamp);
    lemma_trim_keeps_plain_text(point.value);
    assert forall|i: int| 0 <= i < row.len() implies #[trigger] row[i] != '\n' by {
        if i < index.len() {
            assert(row[i] == index[i]);
            lemma_number_chars_are_plain(index[i]);
        } else if i == index.len() {
        } else if i < index.len() + 1 + point.timestamp.len() {
            assert(row[i] == point.timestamp[i - index.len() - 1]);
            lemma_number_chars_are_plain(point.timestamp[i - index.len() - 1]);
        } else if i == index.len() + 1 + point.timestamp.len() {
        } else {
            assert(row[i] == point.value[i - index.len() - 2 - point.timestamp.len()]);
            lemma_number_chars_are_plain(point.value[i - index.len() - 2 - point.timestamp.len()]);
        }
    }
}

/// The rows that list the samples, one each, in order.
pub open spec fn row_texts(rows: Seq<DataPointView>) -> Seq<Seq<char>> {
    rows.map_values(|p: DataPointView| row_text(p))
}

/// The lines of a written dataset are its rows and an empty line after the last newline.
pub proof fn lemma_dataset_lines(rows: Seq<DataPointView>)
    requires
        forall|i: int| 0 <= i < rows.len() ==> is_sample(#[trigger] rows[i]),
    ensures
        split_on(dataset_text(rows), '\n') == row_texts(rows).push(Seq::<char>::empty()),
    decreases rows.len(),
{
    if rows.len() == 0 {
        assert(row_texts(rows).push(Seq::<char>::empty()) == seq![Seq::<char>::empty()]);
    } else {
        let front = rows.drop_last();
        let before = dataset_text(front);
        let row = row_text(rows.last());
        assert forall|i: int| 0 <= i < front.len() implies is_sample(#[trigger] front[i]) by {
            assert(front[i] == rows[i]);
        }
        lemma_dataset_lines(front);
        assert(is_sample(rows[rows.len() - 1]));
        lemma_row_round_trip(rows.last());
        lemma_split_joins_last_part(before, row, '\n');
        let whole = before + row + seq!['\n'];
        assert(whole.drop_last() == before + row);
        assert(whole.last() == '\n');
        assert(Seq::<char>::empty() + row == row);
        assert(split_on(before + row, '\n') == row_texts(front).push(row));
        assert(row_texts(front).push(row) == row_texts(rows));
    }
}

/// The rows that list the samples read back as the samples.
pub proof fn lemma_rows_round_trip(rows: Seq<DataPointView>)
    requires
        forall|i: int| 0 <= i < rows.len() ==> is_sample(#[trigger] rows[i]),
    ensures
        parse_lines(row_texts(rows)) == Ok::<Seq<DataPointView>, CsvError>(rows),
    decreases rows.len(),
{
    if rows.len() == 0 {
        assert(rows == Seq::<DataPointView>::empty());
    } else {
        let front = rows.drop_last();
        assert forall|i: int| 0 <= i < front.len() implies is_sample(#[trigger] front[i]) by {
            assert(front[i] == rows[i]);
        }
        lemma_rows_round_trip(front);
        assert(is_sample(rows[rows.len() - 1]));
        lemma_row_round_trip(rows.last());
        assert(row_texts(rows).drop_last() == row_texts(front));
        assert(row_texts(rows).last() == row_text(rows.last()));
        assert(front.push(rows.last()) == rows);
    }
}

/// Samples written out as a dataset and parsed again are the same samples,
/// as many and in the same order, each with the same index and the same
/// literals for timestamp and value.
pub proof fn lemma_dataset_round_trip(rows: Seq<DataPointView>)
    requires
        rows.len() > 0,
        forall|i: int| 0 <= i < rows.len() ==> is_sample(#[trigger] rows[i]),
    ensures
        parse_csv(dataset_text(rows)) == Ok::<Seq<DataPointView>, CsvError>(rows),
{
    lemma_dataset_lines(rows);
    lemma_rows_round_trip(rows);
    let lines = row_texts(rows).push(Seq::<char>::empty());
    assert(lines.drop_last() == row_texts(rows));
    assert(trim(Seq::<char>::empty()) == Seq::<char>::empty());
}

/// The samples that parsing gives are samples: what was read can be written
/// out and read again.
pub proof fn lemma_parsed_rows_are_samples(text: Seq<char>)
    requires
        parse_csv(text) is Ok,
    ensures
        parse_csv(text)->Ok_0.len() > 0,
        forall|i: int|
            0 <= i < parse_csv(text)->Ok_0.len() ==> is_sample(#[trigger] parse_csv(text)->Ok_0[i]),
        parse_csv(dataset_text(parse_csv(text)->Ok_0)) == parse_csv(text),
{
    lemma_parsed_lines_are_samples(split_on(text, '\n'));
    lemma_dataset_round_trip(parse_csv(text)->Ok_0);
}

/// The samples that the lines give are samples.
proof fn lemma_parsed_lines_are_samples(lines: Seq<Seq<char>>)
    requires
        parse_lines(lines) is Ok,
    ensures
        forall|i: int|
            0 <= i < parse_lines(lines)->Ok_0.len() ==> is_sample(
                #[trigger] parse_lines(lines)->Ok_0[i],
            ),
    decreases lines.len(),
{
    if lines.len() > 0 {
        lemma_parsed_lines_are_samples(lines.drop_last());
    }
}

} // verus!
