use ebers_core::csv::{parse_csv_data, parse_csv_rows, CsvError, RowFault};
use ebers_core::numeric::{FloatFault, IntegerFault};

#[test]
fn two_rows_in_order() {
    let rows = parse_csv_data("0,0.0,1.2\n1,0.1,1.3\n").unwrap();
    assert_eq!(rows.len(), 2);
    assert_eq!(rows[0].index, 0);
    assert_eq!(rows[0].timestamp, "0.0");
    assert_eq!(rows[0].value, "1.2");
    assert_eq!(rows[1].index, 1);
    assert_eq!(rows[1].timestamp, "0.1");
    assert_eq!(rows[1].value, "1.3");
    assert_eq!(rows[0].timestamp.parse::<f64>().unwrap(), 0.0);
    assert_eq!(rows[0].value.parse::<f64>().unwrap(), 1.2);
}

#[test]
fn blank_lines_and_carriage_returns_are_skipped() {
    let rows = parse_csv_data("\r\n  7 , 1e3 , -.5 \r\n\n\t\n8,+2.,inf").unwrap();
    assert_eq!(rows.len(), 2);
    assert_eq!(rows[0].index, 7);
    assert_eq!(rows[0].timestamp, "1e3");
    assert_eq!(rows[0].value, "-.5");
    assert_eq!(rows[1].index, 8);
    assert_eq!(rows[1].timestamp, "+2.");
    assert_eq!(rows[1].value, "inf");
}

#[test]
fn wrong_column_count_names_the_line() {
    let err = parse_csv_rows("0,0.0,1.2\n\n1,0.1\n2,0.2,1.4,9\n").unwrap_err();
    assert_eq!(
        err,
        CsvError::Row {
            line: 3,
            fault: RowFault::ColumnCount { found: 2 }
        }
    );
    assert_eq!(err.line(), Some(3));
    assert_eq!(
        err.message(),
        "Invalid CSV format at line 3: expected 3 columns, got 2"
    );
    assert_eq!(
        parse_csv_data("1,2,3,4").unwrap_err(),
        "Invalid CSV format at line 1: expected 3 columns, got 4"
    );
}

#[test]
fn invalid_index_messages() {
    assert_eq!(
        parse_csv_data("x,0.0,1.2").unwrap_err(),
        "Invalid index at line 1: invalid digit found in string"
    );
    assert_eq!(
        parse_csv_data("0,0,0\n,0.0,1.2").unwrap_err(),
        "Invalid index at line 2: cannot parse integer from empty string"
    );
    assert_eq!(
        parse_csv_data("4294967296,0.0,1.2").unwrap_err(),
        "Invalid index at line 1: number too large to fit in target type"
    );
    assert_eq!(
        parse_csv_rows("-1,0.0,1.2").unwrap_err(),
        CsvError::Row {
            line: 1,
            fault: RowFault::InvalidIndex(IntegerFault::InvalidDigit)
        }
    );
    assert_eq!(parse_csv_data("4294967295,0,0").unwrap()[0].index, u32::MAX);
    assert_eq!(parse_csv_data("+0012,0,0").unwrap()[0].index, 12);
}

#[test]
fn invalid_float_messages() {
    assert_eq!(
        parse_csv_data("0,abc,1.2").unwrap_err(),
        "Invalid timestamp at line 1: invalid float literal"
    );
    assert_eq!(
        parse_csv_data("0,,1.2").unwrap_err(),
        "Invalid timestamp at line 1: cannot parse float from empty string"
    );
    assert_eq!(
        parse_csv_data("0,1.0,1.2.3").unwrap_err(),
        "Invalid value at line 1: invalid float literal"
    );
    assert_eq!(
        parse_csv_rows("0,1.0,").unwrap_err(),
        CsvError::Row {
            line: 1,
            fault: RowFault::InvalidValue(FloatFault::Empty)
        }
    );
}

#[test]
fn empty_dataset_is_rejected() {
    assert_eq!(parse_csv_rows("").unwrap_err(), CsvError::NoDataPoints);
    assert_eq!(
        parse_csv_data(" \n\r\n\t").unwrap_err(),
        "No valid data points found in CSV"
    );
    assert_eq!(CsvError::NoDataPoints.line(), None);
}

#[test]
fn float_literals_agree_with_the_standard_parser() {
    let samples = [
        "0", "1", "1.", ".5", "1.5", "+1.5", "-1.5", "1e5", "1E5", "1e+5", "1e-5", "1.e5", ".5e5",
        "inf", "INF", "Inf", "+inf", "-inf", "infinity", "Infinity", "-INFINITY", "nan", "NaN",
        "+nan", "-nan", "007", "1e05", "", "+", "-", ".", "e5", ".e5", "1e", "1e+", "1e-",
        "1.2.3", "infinit", "in", "na", "nano", "1f", "0x10", "1_0", "++1", "+-1", "1 1",
        "١", "1e5.0", "--1", "1ee5", "+.", "-.e1", "5.e", "infinityy", "1.0e10", "12345678901234567890",
    ];
    for s in samples {
        let row = format!("1,{},0", s);
        let ours = parse_csv_rows(&row).is_ok();
        let theirs = s.parse::<f64>().is_ok();
        assert_eq!(ours, theirs, "literal {:?}", s);
    }
}

#[test]
fn indices_agree_with_the_standard_parser() {
    let samples = [
        "0", "1", "+1", "-1", "-0", "+", "-", "", "00", "4294967295", "4294967296", "42949672950",
        "99999999999999999999", "1a", "a1", "1 1", "+-1", "++1", "1+", "٣", "0004294967295",
        "9999999999x", "x9999999999",
    ];
    for s in samples {
        let row = format!("{},0,0", s);
        let ours = parse_csv_rows(&row);
        let theirs = s.parse::<u32>();
        match (ours, theirs) {
            (Ok(rows), Ok(n)) => assert_eq!(rows[0].index, n),
            (Err(e), Err(t)) => {
                assert_eq!(
                    e.message(),
                    format!("Invalid index at line 1: {}", t),
                    "index {:?}",
                    s
                );
            }
            (ours, theirs) => panic!("index {:?}: {:?} against {:?}", s, ours, theirs),
        }
    }
}

#[test]
fn every_non_blank_row_gives_one_sample_in_order() {
    let mut text = String::new();
    for i in 0..50u32 {
        if i % 7 == 0 {
            text.push_str("   \r\n");
        }
        text.push_str(&format!("{},{}.5,{}e-3\n", i, i, i * 2));
    }
    let rows = parse_csv_rows(&text).unwrap();
    assert_eq!(rows.len(), 50);
    for (k, row) in rows.iter().enumerate() {
        assert_eq!(row.index as usize, k);
        assert_eq!(row.timestamp, format!("{}.5", k));
        assert_eq!(row.value, format!("{}e-3", k * 2));
    }
}

#[test]
fn first_malformed_row_wins() {
    let err = parse_csv_rows("1,1,1\n\n2,2\nx,y,z\n").unwrap_err();
    assert_eq!(err.line(), Some(3));
    let err = parse_csv_rows("1,1,1\n2,2,2\n3,3,3\n4,4,oops").unwrap_err();
    assert_eq!(
        err,
        CsvError::Row {
            line: 4,
            fault: RowFault::InvalidValue(FloatFault::Invalid)
        }
    );
    let err = parse_csv_rows("a,b\n").unwrap_err();
    assert_eq!(err.line(), Some(1));
}

#[test]
fn written_out_rows_parse_back_the_same() {
    let first = parse_csv_rows(" 3 , 0.25 , -1e-3 \r\n\n4,+.5,NaN\n5,7.,Infinity").unwrap();
    let mut text = String::new();
    for row in &first {
        text.push_str(&format!("{},{},{}\n", row.index, row.timestamp, row.value));
    }
    assert_eq!(text, "3,0.25,-1e-3\n4,+.5,NaN\n5,7.,Infinity\n");
    let again = parse_csv_rows(&text).unwrap();
    assert_eq!(again, first);
    assert_eq!(again.len(), 3);
    for (a, b) in again.iter().zip(first.iter()) {
        let (x, y): (f64, f64) = (a.timestamp.parse().unwrap(), b.timestamp.parse().unwrap());
        assert_eq!(x, y);
        let (x, y): (f64, f64) = (a.value.parse().unwrap(), b.value.parse().unwrap());
        assert!(x == y || (x.is_nan() && y.is_nan()));
    }
}

#[test]
fn unicode_whitespace_is_trimmed_like_any_other() {
    let rows = parse_csv_rows("\u{a0}1\u{2003},\u{3000}2.5 ,\t3e1\u{85}\n\u{2028}\n").unwrap();
    assert_eq!(rows.len(), 1);
    assert_eq!(rows[0].index, 1);
    assert_eq!(rows[0].timestamp, "2.5");
    assert_eq!(rows[0].value, "3e1");
    let err = parse_csv_rows("1,2\u{200b},3").unwrap_err();
    assert_eq!(
        err,
        CsvError::Row {
            line: 1,
            fault: RowFault::InvalidTimestamp(FloatFault::Invalid)
        }
    );
}

#[test]
fn rows_agree_with_line_by_line_reading() {
    let text = "0,0.0,1.2\r\n \n1,0.1,1.3\n\n2,0.2,1.4";
    let rows = parse_csv_rows(text).unwrap();
    let mut expected = Vec::new();
    for line in text.lines() {
        let line = line.trim();
        if line.is_empty() {
            continue;
        }
        let parts: Vec<&str> = line.split(',').collect();
        assert_eq!(parts.len(), 3);
        expected.push((
            parts[0].trim().parse::<u32>().unwrap(),
            parts[1].trim().parse::<f64>().unwrap(),
            parts[2].trim().parse::<f64>().unwrap(),
        ));
    }
    assert_eq!(rows.len(), expected.len());
    for (row, (index, timestamp, value)) in rows.iter().zip(expected) {
        assert_eq!(row.index, index);
        assert_eq!(row.timestamp.parse::<f64>().unwrap(), timestamp);
        assert_eq!(row.value.parse::<f64>().unwrap(), value);
    }
}
