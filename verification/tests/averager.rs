//! End-to-end behaviour of the stock averager library.

use stock_averager::average::average_close;
use stock_averager::average::close_contribution;
use stock_averager::average::AverageClose;
use stock_averager::average::CloseValue;
use stock_averager::decode::decode_time_series;
use stock_averager::decode::interpret_response;
use stock_averager::decode::FetchError;
use stock_averager::series::DailyRecord;
use stock_averager::series::TimeSeries;
use stock_averager::url::build_query_url;

fn record_with_close(close: &str) -> DailyRecord {
    DailyRecord::new(
        b"100.0".to_vec(),
        b"120.0".to_vec(),
        b"90.0".to_vec(),
        close.as_bytes().to_vec(),
        b"1000".to_vec(),
    )
}

fn average_as_f64(avg: AverageClose) -> f64 {
    match avg {
        AverageClose::Empty => f64::NAN,
        AverageClose::Overflow => f64::NAN,
        AverageClose::Mean { sum_scaled, count } => {
            (sum_scaled as f64) / ((count as f64) * 1_000_000_000_000_000_000.0)
        }
    }
}

const FIXTURE: &str = r#"{
    "Meta Data": {
        "1. Information": "Daily Prices (open, high, low, close) and Volumes",
        "2. Symbol": "IBM"
    },
    "Time Series (Daily)": {
        "2023-04-01": {
            "1. open": "104.0",
            "2. high": "106.0",
            "3. low": "103.0",
            "4. close": "105.0",
            "5. volume": "4000000"
        },
        "2023-04-02": {
            "1. open": "109.0",
            "2. high": "111.0",
            "3. low": "108.0",
            "4. close": "110.0",
            "5. volume": "3500000"
        }
    }
}"#;

#[test]
fn average_of_two_closes_is_exact() {
    let mut series = TimeSeries::new();
    series.insert(b"2023-04-01".to_vec(), record_with_close("105.0"));
    series.insert(b"2023-04-02".to_vec(), record_with_close("110.0"));
    let avg = average_close(&series);
    assert_eq!(
        avg,
        AverageClose::Mean { sum_scaled: 215_000_000_000_000_000_000, count: 2 }
    );
    assert_eq!(average_as_f64(avg), 107.5);
}

#[test]
fn average_of_empty_series_is_non_finite() {
    let series = TimeSeries::new();
    let avg = average_close(&series);
    assert_eq!(avg, AverageClose::Empty);
    assert!(!average_as_f64(avg).is_finite());
}

#[test]
fn malformed_close_counts_as_zero() {
    let mut series = TimeSeries::new();
    series.insert(b"2023-04-01".to_vec(), record_with_close("105.0"));
    series.insert(b"2023-04-02".to_vec(), record_with_close("bad"));
    let avg = average_close(&series);
    assert_eq!(
        avg,
        AverageClose::Mean { sum_scaled: 105_000_000_000_000_000_000, count: 2 }
    );
    assert_eq!(average_as_f64(avg), 52.5);
}

#[test]
fn missing_series_key_is_decode_error() {
    let body = br#"{"Meta Data": {"2. Symbol": "IBM"}}"#;
    assert!(matches!(decode_time_series(body), Err(FetchError::DecodeError)));
}

#[test]
fn malformed_json_is_decode_error() {
    assert!(matches!(
        decode_time_series(b"{\"Time Series (Daily)\": {"),
        Err(FetchError::DecodeError)
    ));
    assert!(matches!(decode_time_series(b"not json at all"), Err(FetchError::DecodeError)));
    assert!(matches!(decode_time_series(b""), Err(FetchError::DecodeError)));
}

#[test]
fn invalid_escape_is_decode_error() {
    let body = br#"{"a":"\q","Time Series (Daily)":{}}"#;
    assert!(matches!(decode_time_series(body), Err(FetchError::DecodeError)));
}

#[test]
fn invalid_utf8_in_string_is_decode_error() {
    let mut body = b"{\"note\": \"a".to_vec();
    body.push(0xFF);
    body.extend_from_slice(b"b\", \"Time Series (Daily)\": {}}");
    assert!(matches!(decode_time_series(&body), Err(FetchError::DecodeError)));
    let mut truncated = b"{\"note\": \"a".to_vec();
    truncated.push(0xC3);
    truncated.extend_from_slice(b"b\", \"Time Series (Daily)\": {}}");
    assert!(matches!(decode_time_series(&truncated), Err(FetchError::DecodeError)));
}

#[test]
fn lone_surrogate_escape_is_decode_error() {
    let high = br#"{"a":"\uD800","Time Series (Daily)":{}}"#;
    assert!(matches!(decode_time_series(high), Err(FetchError::DecodeError)));
    let low = br#"{"a":"\uDC00","Time Series (Daily)":{}}"#;
    assert!(matches!(decode_time_series(low), Err(FetchError::DecodeError)));
}

#[test]
fn valid_escapes_and_utf8_are_accepted() {
    let body = "{\"caf\u{00e9}\": \"a\\n\\t\\\"\\\\\\/\\u0041\\uD834\\uDD1E\", \
                \"Time Series (Daily)\": {}}";
    let series = decode_time_series(body.as_bytes()).unwrap();
    assert_eq!(series.len(), 0);
}

#[test]
fn escaped_dates_are_kept_verbatim() {
    let body = br#"{"Time Series (Daily)": {"20\u002423": {"1. open": "1",
        "2. high": "2", "3. low": "3", "4. close": "4", "5. volume": "5"}}}"#;
    let series = decode_time_series(body).unwrap();
    assert_eq!(series.len(), 1);
    assert_eq!(series.date_at(0).as_slice(), b"20\\u002423".as_slice());
}

#[test]
fn transport_failure_is_network_error() {
    assert!(matches!(interpret_response(None), Err(FetchError::NetworkError)));
}

#[test]
fn fixture_end_to_end_average_prints_as_107_5() {
    let series = interpret_response(Some(FIXTURE.as_bytes().to_vec())).unwrap();
    assert_eq!(series.len(), 2);
    let avg = average_close(&series);
    assert_eq!(format!("{}", average_as_f64(avg)), "107.5");
}

#[test]
fn fixture_decodes_dates_and_fields() {
    let series = decode_time_series(FIXTURE.as_bytes()).unwrap();
    assert_eq!(series.len(), 2);
    let mut seen_first = false;
    let mut seen_second = false;
    for i in 0..series.len() {
        let date = series.date_at(i).clone();
        let rec = series.record_at(i);
        if date == b"2023-04-01".to_vec() {
            assert_eq!(rec.open, b"104.0".to_vec());
            assert_eq!(rec.close, b"105.0".to_vec());
            assert_eq!(rec.volume, b"4000000".to_vec());
            seen_first = true;
        } else if date == b"2023-04-02".to_vec() {
            assert_eq!(rec.high, b"111.0".to_vec());
            assert_eq!(rec.low, b"108.0".to_vec());
            assert_eq!(rec.close, b"110.0".to_vec());
            seen_second = true;
        } else {
            panic!("unexpected date");
        }
    }
    assert!(seen_first && seen_second);
}

#[test]
fn duplicate_date_keeps_later_record() {
    let body = br#"{"Time Series (Daily)": {
        "2023-04-01": {"1. open": "1", "2. high": "2", "3. low": "3", "4. close": "4", "5. volume": "5"},
        "2023-04-01": {"1. open": "6", "2. high": "7", "3. low": "8", "4. close": "9", "5. volume": "10"}
    }}"#;
    let series = decode_time_series(body).unwrap();
    assert_eq!(series.len(), 1);
    assert_eq!(series.record_at(0).close, b"9".to_vec());
}

#[test]
fn empty_series_object_decodes_to_empty_series() {
    let series = decode_time_series(br#"{"Time Series (Daily)": {}}"#).unwrap();
    assert_eq!(series.len(), 0);
    assert_eq!(average_close(&series), AverageClose::Empty);
}

#[test]
fn record_missing_field_is_decode_error() {
    let body = br#"{"Time Series (Daily)": {
        "2023-04-01": {"1. open": "1", "2. high": "2", "3. low": "3", "4. close": "4"}
    }}"#;
    assert!(matches!(decode_time_series(body), Err(FetchError::DecodeError)));
}

#[test]
fn record_field_must_be_string() {
    let body = br#"{"Time Series (Daily)": {
        "2023-04-01": {"1. open": 1, "2. high": "2", "3. low": "3", "4. close": "4", "5. volume": "5"}
    }}"#;
    assert!(matches!(decode_time_series(body), Err(FetchError::DecodeError)));
}

#[test]
fn duplicate_series_key_is_decode_error() {
    let body = br#"{"Time Series (Daily)": {}, "Time Series (Daily)": {}}"#;
    assert!(matches!(decode_time_series(body), Err(FetchError::DecodeError)));
}

#[test]
fn trailing_garbage_is_decode_error() {
    let body = br#"{"Time Series (Daily)": {}} extra"#;
    assert!(matches!(decode_time_series(body), Err(FetchError::DecodeError)));
}

#[test]
fn unknown_members_of_records_are_skipped() {
    let body = br#"{"Time Series (Daily)": {
        "2023-04-01": {"1. open": "1", "2. high": "2", "3. low": "3",
                       "note": [1, true, null, {"deep": "x"}],
                       "4. close": "4", "5. volume": "5"}
    }}"#;
    let series = decode_time_series(body).unwrap();
    assert_eq!(series.len(), 1);
    assert_eq!(series.record_at(0).close, b"4".to_vec());
}

#[test]
fn close_contribution_parses_plain_decimals() {
    assert_eq!(close_contribution(b"105.0"), CloseValue::Exact(105_000_000_000_000_000_000));
    assert_eq!(close_contribution(b"00105.0"), CloseValue::Exact(105_000_000_000_000_000_000));
    assert_eq!(close_contribution(b"0.5"), CloseValue::Exact(500_000_000_000_000_000));
    assert_eq!(close_contribution(b"-2.25"), CloseValue::Exact(-2_250_000_000_000_000_000));
    assert_eq!(close_contribution(b"+7"), CloseValue::Exact(7_000_000_000_000_000_000));
    assert_eq!(close_contribution(b"5."), CloseValue::Exact(5_000_000_000_000_000_000));
    assert_eq!(close_contribution(b".5"), CloseValue::Exact(500_000_000_000_000_000));
}

#[test]
fn close_contribution_rejects_non_decimals() {
    assert_eq!(close_contribution(b"N/A"), CloseValue::Exact(0));
    assert_eq!(close_contribution(b""), CloseValue::Exact(0));
    assert_eq!(close_contribution(b"."), CloseValue::Exact(0));
    assert_eq!(close_contribution(b"1e3"), CloseValue::Exact(0));
    assert_eq!(close_contribution(b"inf"), CloseValue::Exact(0));
    assert_eq!(close_contribution(b"1.2.3"), CloseValue::Exact(0));
    assert_eq!(close_contribution(b"--1"), CloseValue::Exact(0));
}

#[test]
fn close_contribution_covers_eighteen_digits() {
    assert_eq!(
        close_contribution(b"1000000000"),
        CloseValue::Exact(1_000_000_000_000_000_000_000_000_000)
    );
    assert_eq!(
        close_contribution(b"999999999999999999"),
        CloseValue::Exact(999_999_999_999_999_999_000_000_000_000_000_000)
    );
    assert_eq!(close_contribution(b"0.000000000000000001"), CloseValue::Exact(1));
    assert_eq!(close_contribution(b"0.0000000001"), CloseValue::Exact(100_000_000));
}

#[test]
fn close_beyond_eighteen_digits_is_reported_not_zeroed() {
    assert_eq!(close_contribution(b"1000000000000000000"), CloseValue::OutOfRange);
    assert_eq!(close_contribution(b"0.0000000000000000001"), CloseValue::OutOfRange);
    let mut series = TimeSeries::new();
    series.insert(b"2023-04-01".to_vec(), record_with_close("1000000000000000000"));
    assert_eq!(average_close(&series), AverageClose::Overflow);
}

#[test]
fn large_integer_close_averages_exactly() {
    let mut series = TimeSeries::new();
    series.insert(b"2023-04-01".to_vec(), record_with_close("1000000000"));
    let avg = average_close(&series);
    assert_eq!(
        avg,
        AverageClose::Mean { sum_scaled: 1_000_000_000_000_000_000_000_000_000, count: 1 }
    );
    assert!((average_as_f64(avg) - 1_000_000_000.0).abs() < 1.0e-3);
}

#[test]
fn six_figure_quote_with_four_decimals_averages_exactly() {
    let mut series = TimeSeries::new();
    series.insert(b"2023-04-01".to_vec(), record_with_close("628900.0000"));
    let avg = average_close(&series);
    assert_eq!(
        avg,
        AverageClose::Mean { sum_scaled: 628_900_000_000_000_000_000_000, count: 1 }
    );
    assert!((average_as_f64(avg) - 628_900.0).abs() < 1.0e-6);
}

#[test]
fn summed_magnitudes_beyond_i128_are_overflow() {
    let mut series = TimeSeries::new();
    for i in 0..200usize {
        let date = format!("d{}", i).into_bytes();
        series.insert(date, record_with_close("999999999999999999"));
    }
    assert_eq!(average_close(&series), AverageClose::Overflow);
}

#[test]
fn insert_replaces_record_for_same_date() {
    let mut series = TimeSeries::new();
    series.insert(b"2023-04-01".to_vec(), record_with_close("105.0"));
    series.insert(b"2023-04-01".to_vec(), record_with_close("110.0"));
    assert_eq!(series.len(), 1);
    assert_eq!(series.record_at(0).close, b"110.0".to_vec());
}

#[test]
fn query_url_is_assembled_exactly() {
    let url = build_query_url(b"IBM", b"demo");
    assert_eq!(
        String::from_utf8(url).unwrap(),
        "https://www.alphavantage.co/query?function=TIME_SERIES_DAILY&symbol=IBM&apikey=demo"
    );
}
