use http_front::timestamp::{HttpTimestamp, MAX_HTTP_SECS};

fn at(secs: u64) -> HttpTimestamp {
    HttpTimestamp::from_unix_secs(secs).expect("in range")
}

#[test]
fn timestamp_range_ends_with_the_year_9999() {
    assert_eq!(MAX_HTTP_SECS, 253_402_300_799);
    assert_eq!(HttpTimestamp::from_unix_secs(0).map(|t| t.unix_secs()), Some(0));
    assert_eq!(
        HttpTimestamp::from_unix_secs(MAX_HTTP_SECS).map(|t| t.unix_secs()),
        Some(MAX_HTTP_SECS)
    );
    assert_eq!(HttpTimestamp::from_unix_secs(MAX_HTTP_SECS + 1), None);
    assert_eq!(HttpTimestamp::from_unix_secs(u64::MAX), None);
}

#[test]
fn at_least_compares_instants() {
    assert!(at(10).at_least(&at(10)));
    assert!(at(11).at_least(&at(10)));
    assert!(!at(9).at_least(&at(10)));
    assert!(at(MAX_HTTP_SECS).at_least(&at(0)));
}

#[test]
fn from_parsed_keeps_instants_in_range_only() {
    assert_eq!(HttpTimestamp::from_parsed(None), None);
    assert_eq!(HttpTimestamp::from_parsed(Some(-1)), None);
    assert_eq!(HttpTimestamp::from_parsed(Some(i64::MIN)), None);
    assert_eq!(HttpTimestamp::from_parsed(Some(0)), Some(at(0)));
    assert_eq!(HttpTimestamp::from_parsed(Some(784_111_777)), Some(at(784_111_777)));
    assert_eq!(
        HttpTimestamp::from_parsed(Some(253_402_300_799)),
        Some(at(MAX_HTTP_SECS))
    );
    assert_eq!(HttpTimestamp::from_parsed(Some(253_402_300_800)), None);
    assert_eq!(HttpTimestamp::from_parsed(Some(i64::MAX)), None);
}

#[test]
fn parse_reads_an_http_date() {
    assert_eq!(
        HttpTimestamp::parse("Sun, 06 Nov 1994 08:49:37 GMT"),
        Some(at(784_111_777))
    );
    assert_eq!(
        HttpTimestamp::parse("Thu, 01 Jan 1970 00:00:00 GMT"),
        Some(at(0))
    );
}

#[test]
fn parse_takes_the_offset_into_account() {
    assert_eq!(
        HttpTimestamp::parse("Sun, 06 Nov 1994 09:49:37 +0100"),
        Some(at(784_111_777))
    );
}

#[test]
fn parse_passes_over_what_is_no_date() {
    assert_eq!(HttpTimestamp::parse(""), None);
    assert_eq!(HttpTimestamp::parse("yesterday"), None);
    assert_eq!(HttpTimestamp::parse("784111777"), None);
}

#[test]
fn parse_passes_over_dates_before_the_epoch() {
    assert_eq!(HttpTimestamp::parse("Wed, 31 Dec 1969 23:59:59 GMT"), None);
}

#[test]
fn header_text_is_the_date_in_utc() {
    assert_eq!(
        at(784_111_777).header_text(),
        Some("Sun, 6 Nov 1994 08:49:37 +0000".to_string())
    );
    assert_eq!(
        at(0).header_text(),
        Some("Thu, 1 Jan 1970 00:00:00 +0000".to_string())
    );
    assert_eq!(
        at(MAX_HTTP_SECS).header_text(),
        Some("Fri, 31 Dec 9999 23:59:59 +0000".to_string())
    );
}

#[test]
fn header_text_reads_back_as_the_same_instant() {
    for secs in [0u64, 1, 59, 86_399, 86_400, 784_111_777, 1_700_000_000, MAX_HTTP_SECS] {
        let text = at(secs).header_text().expect("a date");
        assert_eq!(HttpTimestamp::parse(&text), Some(at(secs)), "{}", text);
    }
}
