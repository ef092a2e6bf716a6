//! MT940 amount and date fields.

use x940rs::{infer_entry_date, parse_mt940_amount, parse_mt940_date, Date, ParseError};

#[test]
fn parses_standard_amount() {
    let result = parse_mt940_amount("50000,00").unwrap();
    assert_eq!(result.to_string(), "50000.00");
}

#[test]
fn parses_amount_with_single_decimal() {
    let result = parse_mt940_amount("1250,5").unwrap();
    assert_eq!(result.to_string(), "1250.50");
}

#[test]
fn parses_amount_with_empty_decimal() {
    let result = parse_mt940_amount("100,").unwrap();
    assert_eq!(result.to_string(), "100.00");
}

#[test]
fn parses_small_amount() {
    let result = parse_mt940_amount("0,12").unwrap();
    assert_eq!(result.to_string(), "0.12");
}

#[test]
fn parses_integer_only() {
    let result = parse_mt940_amount("100").unwrap();
    assert_eq!(result.to_string(), "100.00");
}

#[test]
fn preserves_two_decimal_places() {
    let result = parse_mt940_amount("1,00").unwrap();
    assert_eq!(result.to_string(), "1.00");
}

#[test]
fn parses_2026_date() {
    let date = parse_mt940_date("260601").unwrap();
    assert_eq!(date, Date::from_ymd_opt(2026, 6, 1).unwrap());
}

#[test]
fn parses_2009_date() {
    let date = parse_mt940_date("091225").unwrap();
    assert_eq!(date, Date::from_ymd_opt(2009, 12, 25).unwrap());
}

#[test]
fn parses_1999_date() {
    let date = parse_mt940_date("991231").unwrap();
    assert_eq!(date, Date::from_ymd_opt(1999, 12, 31).unwrap());
}

#[test]
fn parses_century_boundary() {
    let d1 = parse_mt940_date("790101").unwrap();
    assert_eq!(d1.year(), 2079);

    let d2 = parse_mt940_date("800101").unwrap();
    assert_eq!(d2.year(), 1980);
}

#[test]
fn rejects_invalid_dates() {
    assert!(parse_mt940_date("260230").is_err()); // Feb 30 doesn't exist
    assert!(parse_mt940_date("too short").is_err());
}

#[test]
fn amount_strips_leading_zeros_and_keeps_scale() {
    assert_eq!(parse_mt940_amount("000123,4").unwrap().to_string(), "123.40");
    assert_eq!(parse_mt940_amount("0,5").unwrap().to_string(), "0.50");
    assert_eq!(parse_mt940_amount("12,34").unwrap().to_string(), "12.34");
    let big = "12345678901234567890123456,78";
    assert_eq!(parse_mt940_amount(big).unwrap().to_string(), "12345678901234567890123456.78");
}

#[test]
fn amount_outside_the_format_is_invalid() {
    for raw in ["1,2,3", "1,234", "", ",5", "-5,00", "+5,00", "5.00", "1 000,00", "٣,00"] {
        match parse_mt940_amount(raw) {
            Err(ParseError::InvalidAmount { value, tag }) => {
                assert_eq!(value, raw);
                assert_eq!(tag, "(amount field)");
            }
            other => panic!("unexpected result for {:?}: {:?}", raw, other),
        }
    }
}

#[test]
fn date_outside_six_ascii_digits_is_invalid() {
    for raw in ["+10101", "-10101", " 10101", "€€", "2601010", "26011", "٢٦٠١٠١"] {
        match parse_mt940_date(raw) {
            Err(ParseError::InvalidDate { value, tag }) => {
                assert_eq!(value, raw);
                assert_eq!(tag, "(date field)");
            }
            other => panic!("unexpected result for {:?}: {:?}", raw, other),
        }
    }
}

#[test]
fn amount_error_names_the_raw_text() {
    match parse_mt940_amount("12a,00") {
        Err(ParseError::InvalidAmount { value, tag }) => {
            assert_eq!(value, "12a,00");
            assert_eq!(tag, "(amount field)");
        }
        other => panic!("unexpected result {:?}", other),
    }
}

#[test]
fn date_error_names_the_raw_text() {
    match parse_mt940_date("241301") {
        Err(ParseError::InvalidDate { value, tag }) => {
            assert_eq!(value, "241301");
            assert_eq!(tag, "(date field)");
        }
        other => panic!("unexpected result {:?}", other),
    }
    assert!(parse_mt940_date("2401a1").is_err());
}

#[test]
fn date_formats_as_iso() {
    let d = parse_mt940_date("240229").unwrap();
    assert_eq!(d.to_ymd_string(), "2024-02-29");
    assert_eq!((d.year(), d.month(), d.day()), (2024, 2, 29));
    assert!(parse_mt940_date("230229").is_err());
}

#[test]
fn entry_date_rolls_into_next_year_after_december() {
    let value = Date::from_ymd_opt(2025, 12, 30).unwrap();
    assert_eq!(infer_entry_date(value, 1, 2), Date::from_ymd_opt(2026, 1, 2));
    assert_eq!(infer_entry_date(value, 12, 31), Date::from_ymd_opt(2025, 12, 31));
    let dec31 = Date::from_ymd_opt(2025, 12, 31).unwrap();
    assert_eq!(infer_entry_date(dec31, 1, 3), Date::from_ymd_opt(2026, 1, 3));
    assert_eq!(infer_entry_date(dec31, 12, 31), Date::from_ymd_opt(2025, 12, 31));
}

#[test]
fn entry_date_moves_a_year_when_more_than_three_months_away() {
    let january = Date::from_ymd_opt(2025, 1, 2).unwrap();
    assert_eq!(infer_entry_date(january, 12, 31), Date::from_ymd_opt(2024, 12, 31));
    assert_eq!(infer_entry_date(january, 4, 2), Date::from_ymd_opt(2025, 4, 2));
    assert_eq!(infer_entry_date(january, 4, 3), Date::from_ymd_opt(2024, 4, 3));
    let june = Date::from_ymd_opt(2025, 6, 30).unwrap();
    assert_eq!(infer_entry_date(june, 1, 2), Date::from_ymd_opt(2026, 1, 2));
    assert_eq!(infer_entry_date(june, 7, 1), Date::from_ymd_opt(2025, 7, 1));
    assert_eq!(infer_entry_date(june, 2, 30), None);
    let feb29 = Date::from_ymd_opt(2024, 3, 1).unwrap();
    assert_eq!(infer_entry_date(feb29, 2, 29), Date::from_ymd_opt(2024, 2, 29));
}
