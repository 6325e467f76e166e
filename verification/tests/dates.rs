use hard_waste::date::{
    date_label, parse_pickup_date, parse_with_formats, PickupDate, LONG_FORMAT, NUMERIC_FORMAT,
};
use hard_waste::error::PipelineError;
use hard_waste::schedule::classify_pickup_text;

const EXPECTED: PickupDate = PickupDate { year: 2025, month: 7, day: 15 };

#[test]
fn long_format_is_read() {
    assert_eq!(parse_pickup_date("15 July 2025"), Some(EXPECTED));
}

#[test]
fn numeric_format_is_read_when_the_long_one_fails() {
    assert_eq!(parse_pickup_date("Tue 15/07/2025"), Some(EXPECTED));
}

#[test]
fn weekday_that_contradicts_the_date_is_no_date() {
    assert_eq!(parse_pickup_date("Mon 15/07/2025"), None);
}

#[test]
fn day_that_the_month_lacks_is_no_date() {
    assert_eq!(parse_pickup_date("31 June 2025"), None);
    assert_eq!(parse_pickup_date("29 February 2024"), Some(PickupDate { year: 2024, month: 2, day: 29 }));
    assert_eq!(parse_pickup_date("29 February 2025"), None);
}

#[test]
fn other_text_is_no_date() {
    assert_eq!(parse_pickup_date("Not available at this address"), None);
    assert_eq!(parse_pickup_date("garbage text"), None);
    assert_eq!(parse_pickup_date(""), None);
    assert_eq!(parse_pickup_date("2025-07-15"), None);
}

#[test]
fn formats_are_tried_in_order() {
    let text = "01/02/2025";
    let day_first = PickupDate { year: 2025, month: 2, day: 1 };
    let month_first = PickupDate { year: 2025, month: 1, day: 2 };
    assert_eq!(parse_with_formats(text, &["%d/%m/%Y", "%m/%d/%Y"]), Some(day_first));
    assert_eq!(parse_with_formats(text, &["%m/%d/%Y", "%d/%m/%Y"]), Some(month_first));
    assert_eq!(parse_with_formats(text, &["%Y", "%m/%d/%Y"]), Some(month_first));
    assert_eq!(parse_with_formats(text, &[]), None);
    assert_eq!(parse_with_formats("15 July 2025", &[NUMERIC_FORMAT, LONG_FORMAT]), Some(EXPECTED));
}

#[test]
fn format_that_is_none_reads_nothing() {
    assert_eq!(parse_with_formats("15 July 2025", &["%Q"]), None);
}

#[test]
fn parsed_date_decides_over_the_text() {
    assert_eq!(classify_pickup_text("15 July 2025", Some(EXPECTED)), Ok(Some(EXPECTED)));
    assert_eq!(
        classify_pickup_text("Not available at this address", Some(EXPECTED)),
        Ok(Some(EXPECTED))
    );
}

#[test]
fn notice_of_no_pickup_is_not_an_error() {
    assert_eq!(classify_pickup_text("Not available at this address", None), Ok(None));
}

#[test]
fn unknown_text_is_an_error_that_carries_it() {
    assert_eq!(
        classify_pickup_text("garbage text", None),
        Err(PipelineError::UnexpectedContent { text: "garbage text".to_string() })
    );
    assert_eq!(
        classify_pickup_text("not available at this address", None),
        Err(PipelineError::UnexpectedContent { text: "not available at this address".to_string() })
    );
    assert_eq!(
        classify_pickup_text("", None),
        Err(PipelineError::UnexpectedContent { text: String::new() })
    );
}

#[test]
fn label_is_year_month_day() {
    assert_eq!(date_label(EXPECTED), Some("2025-07-15".to_string()));
    assert_eq!(
        date_label(PickupDate { year: 2024, month: 12, day: 1 }),
        Some("2024-12-01".to_string())
    );
}

#[test]
fn what_is_no_day_has_no_label() {
    assert_eq!(date_label(PickupDate { year: 2025, month: 2, day: 30 }), None);
    assert_eq!(date_label(PickupDate { year: 2025, month: 13, day: 1 }), None);
    assert_eq!(date_label(PickupDate { year: 2025, month: 0, day: 0 }), None);
}

#[test]
fn days_of_the_calendar_are_told_from_other_values() {
    let valid = [
        (2025, 7, 15),
        (2024, 2, 29),
        (2000, 2, 29),
        (0, 2, 29),
        (-4, 2, 29),
        (2025, 1, 31),
        (2025, 4, 30),
        (2025, 12, 31),
        (262142, 12, 31),
        (-262143, 1, 1),
    ];
    for (year, month, day) in valid {
        assert!(PickupDate { year, month, day }.is_valid(), "{}-{}-{}", year, month, day);
    }
    let invalid = [
        (2025, 2, 29),
        (1900, 2, 29),
        (2100, 2, 29),
        (-1, 2, 29),
        (2025, 2, 30),
        (2025, 4, 31),
        (2025, 6, 31),
        (2025, 9, 31),
        (2025, 11, 31),
        (2025, 1, 32),
        (2025, 0, 1),
        (2025, 13, 1),
        (2025, 1, 0),
        (262143, 1, 1),
        (-262144, 12, 31),
        (i32::MAX, 1, 1),
        (i32::MIN, 1, 1),
        (2025, u32::MAX, u32::MAX),
    ];
    for (year, month, day) in invalid {
        assert!(!PickupDate { year, month, day }.is_valid(), "{}-{}-{}", year, month, day);
    }
}

#[test]
fn a_label_goes_with_a_day_of_the_calendar() {
    let values = [
        (2025, 7, 15),
        (2024, 2, 29),
        (2025, 2, 29),
        (0, 1, 1),
        (-4, 2, 29),
        (-1, 2, 29),
        (262142, 12, 31),
        (262143, 1, 1),
        (-262143, 1, 1),
        (-262144, 12, 31),
        (2025, 0, 1),
        (2025, 13, 1),
        (2025, 4, 31),
    ];
    for (year, month, day) in values {
        let date = PickupDate { year, month, day };
        assert_eq!(date_label(date).is_some(), date.is_valid(), "{}-{}-{}", year, month, day);
    }
}

#[test]
fn what_is_read_is_a_day_of_the_calendar() {
    for text in ["15 July 2025", "Tue 15/07/2025", "29 February 2024", "1 January 0001", "31 December 9999"] {
        let date = parse_pickup_date(text).unwrap();
        assert!(date.is_valid(), "{}", text);
        assert!(date_label(date).is_some(), "{}", text);
    }
}
