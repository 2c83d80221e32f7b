use helloasso_calendar::date::{parse_date_range, Date, DateRange};

fn date(year: u16, month: u8, day: u8) -> Date {
    Date { year, month, day }
}

#[test]
fn single_token_yields_same_start_and_end() {
    let r = parse_date_range("Le 05/06/2024 a 20h");
    assert_eq!(r, Some(DateRange::Range(date(2024, 6, 5), date(2024, 6, 5))));
}

#[test]
fn two_tokens_keep_text_order_not_chronological_order() {
    let r = parse_date_range("Du 31/12/2099 au 01/01/2020");
    assert_eq!(
        r,
        Some(DateRange::Range(date(2099, 12, 31), date(2020, 1, 1)))
    );
}

#[test]
fn three_tokens_yield_first_and_last() {
    let r = parse_date_range("01/01/2021 02/02/2022 03/03/2023");
    assert_eq!(r, Some(DateRange::Range(date(2021, 1, 1), date(2023, 3, 3))));
}

#[test]
fn no_token_yields_no_dates() {
    assert_eq!(parse_date_range(""), Some(DateRange::NoDates));
    assert_eq!(parse_date_range("tous les mardis"), Some(DateRange::NoDates));
    assert_eq!(parse_date_range("1/2/2024"), Some(DateRange::NoDates));
}

#[test]
fn invalid_token_is_fatal() {
    assert_eq!(parse_date_range("32/13/2024"), None);
    assert_eq!(parse_date_range("00/01/2024"), None);
    assert_eq!(parse_date_range("15/00/2024"), None);
    assert_eq!(parse_date_range("du 01/01/2024 au 99/99/2024"), None);
}

#[test]
fn invalid_token_among_valid_ones_is_fatal() {
    assert_eq!(parse_date_range("01/01/2024 31/04/2024 05/05/2024"), None);
}

#[test]
fn month_lengths_are_checked() {
    assert_eq!(parse_date_range("31/04/2024"), None);
    assert_eq!(
        parse_date_range("30/04/2024"),
        Some(DateRange::Range(date(2024, 4, 30), date(2024, 4, 30)))
    );
    assert_eq!(
        parse_date_range("31/03/2024"),
        Some(DateRange::Range(date(2024, 3, 31), date(2024, 3, 31)))
    );
}

#[test]
fn leap_years_are_checked() {
    assert_eq!(
        parse_date_range("29/02/2024"),
        Some(DateRange::Range(date(2024, 2, 29), date(2024, 2, 29)))
    );
    assert_eq!(parse_date_range("29/02/2023"), None);
    assert_eq!(parse_date_range("29/02/1900"), None);
    assert_eq!(
        parse_date_range("29/02/2000"),
        Some(DateRange::Range(date(2000, 2, 29), date(2000, 2, 29)))
    );
    assert_eq!(parse_date_range("30/02/2024"), None);
}

#[test]
fn tokens_are_scanned_without_word_boundaries() {
    let r = parse_date_range("123/02/2024");
    assert_eq!(r, Some(DateRange::Range(date(2024, 2, 23), date(2024, 2, 23))));
}

#[test]
fn date_validity() {
    assert!(date(2024, 2, 29).is_valid());
    assert!(!date(2023, 2, 29).is_valid());
    assert!(!date(2024, 0, 1).is_valid());
    assert!(!date(2024, 13, 1).is_valid());
    assert!(!date(2024, 1, 0).is_valid());
    assert!(date(2024, 1, 31).is_valid());
    assert!(!date(2024, 4, 31).is_valid());
    assert!(date(0, 1, 1).is_valid());
    assert!(date(9999, 12, 31).is_valid());
}
