use athena::dates::{
    date_range, date_range_checked, format_date, next_day, parse_date, ArgKind, Date,
    DateRangeError,
};

fn arg(s: &str) -> Option<Result<String, String>> {
    Some(Ok(s.to_string()))
}

#[test]
fn test_date_range() {
    let res = date_range_checked(arg("2022-01-29"), arg("2022-02-02")).unwrap();
    assert_eq!(
        res,
        vec!["2022-01-29", "2022-01-30", "2022-01-31", "2022-02-01"]
    );
}

#[test]
fn date_range_end_excluded_exactly() {
    let start = parse_date("2022-01-29").unwrap();
    let end = parse_date("2022-02-02").unwrap();
    let res = date_range(start, end);
    assert_eq!(res.len(), 4);
    assert_eq!(res[0], "2022-01-29");
    assert_eq!(res[1], "2022-01-30");
    assert_eq!(res[2], "2022-01-31");
    assert_eq!(res[3], "2022-02-01");
}

#[test]
fn date_range_same_date_is_empty() {
    let d = parse_date("2024-02-29").unwrap();
    assert_eq!(date_range(d, d), Vec::<String>::new());
    let d = parse_date("2022-01-29").unwrap();
    assert_eq!(date_range(d, d), Vec::<String>::new());
}

#[test]
fn date_range_reversed_is_empty() {
    let start = parse_date("2022-02-02").unwrap();
    let end = parse_date("2022-01-29").unwrap();
    assert_eq!(date_range(start, end), Vec::<String>::new());
}

#[test]
fn date_range_crosses_leap_day() {
    let start = parse_date("2020-02-28").unwrap();
    let end = parse_date("2020-03-01").unwrap();
    assert_eq!(date_range(start, end), vec!["2020-02-28", "2020-02-29"]);
}

#[test]
fn date_range_at_largest_year() {
    let start = parse_date("9999-12-30").unwrap();
    let end = parse_date("9999-12-31").unwrap();
    assert_eq!(date_range(start, end), vec!["9999-12-30"]);
}

#[test]
fn parse_date_rejects_bad_shapes() {
    assert!(parse_date("2022-1-1").is_none());
    assert!(parse_date("2022/01/01").is_none());
    assert!(parse_date("2022-13-01").is_none());
    assert!(parse_date("2022-00-10").is_none());
    assert!(parse_date("2022-04-31").is_none());
    assert!(parse_date("2021-02-29").is_none());
    assert!(parse_date("").is_none());
    assert!(parse_date("2022-01-0a").is_none());
}

#[test]
fn parse_date_accepts_valid_dates() {
    let d = parse_date("2020-02-29").unwrap();
    assert_eq!(d, Date { year: 2020, month: 2, day: 29 });
    assert_eq!(format_date(d), "2020-02-29");
    let d = parse_date("0001-01-01").unwrap();
    assert_eq!(format_date(d), "0001-01-01");
}

#[test]
fn next_day_rolls_over() {
    let d = next_day(parse_date("2022-01-31").unwrap());
    assert_eq!(format_date(d), "2022-02-01");
    let d = next_day(parse_date("2022-12-31").unwrap());
    assert_eq!(format_date(d), "2023-01-01");
    let d = next_day(parse_date("2020-02-28").unwrap());
    assert_eq!(format_date(d), "2020-02-29");
    let d = next_day(parse_date("2021-02-28").unwrap());
    assert_eq!(format_date(d), "2021-03-01");
}

#[test]
fn date_range_checked_missing_arguments() {
    let e = date_range_checked(None, arg("2022-01-01")).unwrap_err();
    assert!(matches!(
        e,
        DateRangeError::MissingArgument { which: ArgKind::Start }
    ));
    assert_eq!(
        e.message(),
        "Function `date_range` was called without a `start` argument"
    );

    let e = date_range_checked(arg("2022-01-01"), None).unwrap_err();
    assert!(matches!(
        e,
        DateRangeError::MissingArgument { which: ArgKind::End }
    ));
    assert_eq!(
        e.message(),
        "Function `date_range` was called without a `end` argument"
    );
}

#[test]
fn date_range_checked_rejects_non_strings() {
    let e = date_range_checked(Some(Err("42".to_string())), arg("2022-01-01")).unwrap_err();
    match &e {
        DateRangeError::NotAString { which, shown } => {
            assert!(matches!(which, ArgKind::Start));
            assert_eq!(shown, "42");
        }
        other => panic!("unexpected error: {:?}", other),
    }
    assert_eq!(
        e.message(),
        "Function `date_range` received start=42 but it is not a string"
    );
}

#[test]
fn date_range_checked_rejects_bad_format() {
    let e = date_range_checked(arg("2022-1-29"), arg("2022-02-02")).unwrap_err();
    match &e {
        DateRangeError::InvalidFormat { which, value } => {
            assert!(matches!(which, ArgKind::Start));
            assert_eq!(value, "2022-1-29");
        }
        other => panic!("unexpected error: {:?}", other),
    }
    assert_eq!(
        e.message(),
        "Function `date_range` received start=\"2022-1-29\" but `start` is invalid format (%Y-%m-%d)"
    );

    let e = date_range_checked(arg("2022-01-29"), arg("never")).unwrap_err();
    assert!(matches!(
        e,
        DateRangeError::InvalidFormat { which: ArgKind::End, .. }
    ));
}
