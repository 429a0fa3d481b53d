use hya_server::timestamp::rfc3339_of;

#[test]
fn epoch_seconds_render_as_rfc3339_utc() {
    assert_eq!(rfc3339_of(0).unwrap(), "1970-01-01T00:00:00Z");
    assert_eq!(rfc3339_of(1700000000).unwrap(), "2023-11-14T22:13:20Z");
    assert_eq!(rfc3339_of(951782400).unwrap(), "2000-02-29T00:00:00Z");
    assert_eq!(rfc3339_of(1767225600).unwrap(), "2026-01-01T00:00:00Z");
    assert_eq!(rfc3339_of(-1).unwrap(), "1969-12-31T23:59:59Z");
    assert_eq!(rfc3339_of(4107542399).unwrap(), "2100-02-28T23:59:59Z");
    assert_eq!(rfc3339_of(4107542400).unwrap(), "2100-03-01T00:00:00Z");
}

#[test]
fn only_four_digit_years_render() {
    assert_eq!(rfc3339_of(253402300799).unwrap(), "9999-12-31T23:59:59Z");
    assert_eq!(rfc3339_of(253402300800), None);
    assert_eq!(rfc3339_of(-62167219200).unwrap(), "0000-01-01T00:00:00Z");
    assert_eq!(rfc3339_of(-62167219201), None);
    assert_eq!(rfc3339_of(i64::MAX), None);
    assert_eq!(rfc3339_of(i64::MIN), None);
}
