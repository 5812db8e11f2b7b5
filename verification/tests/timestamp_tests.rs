use std::str::FromStr;

use indi_rs::error::Error;
use indi_rs::timestamp::INDITimestamp;

#[test]
fn test_timestamp_parsing() {
    let ts_str = "2024-02-21T19:30:00";
    let ts = INDITimestamp::from_str(ts_str).unwrap();
    assert_eq!(ts.to_string(), ts_str);

    let ts_str = "2024-02-21T19:30:00.5";
    let ts = INDITimestamp::from_str(ts_str).unwrap();
    assert_eq!(ts.decimal(), &Some("5".to_string()));
    assert_eq!(ts.to_string(), ts_str);

    let ts_str = "2024-02-21T19:30:00.500";
    let ts = INDITimestamp::from_str(ts_str).unwrap();
    assert_eq!(ts.decimal(), &Some("500".to_string()));
    assert_eq!(ts.to_string(), ts_str);
}

#[test]
fn test_invalid_timestamp() {
    assert!(INDITimestamp::from_str("invalid").is_err());
    assert!(INDITimestamp::from_str("2024-02-21 19:30:00").is_err());
    assert!(INDITimestamp::from_str("2024-02-21T19:30:00.").is_err());
    assert!(INDITimestamp::from_str("2024-02-21T19:30:00.abc").is_err());
}

#[test]
fn timestamp_errors_say_what_is_wrong() {
    match INDITimestamp::from_str("2024-02-21 19:30:00") {
        Err(Error::Property(m)) => assert_eq!(m, "Invalid characters in timestamp"),
        _ => panic!("expected a property error"),
    }
    match INDITimestamp::from_str("2024-02-21T19:30:00.") {
        Err(Error::Property(m)) => assert_eq!(m, "Invalid decimal part in timestamp"),
        _ => panic!("expected a property error"),
    }
    match INDITimestamp::from_str("2024-02-30T19:30:00") {
        Err(Error::Property(m)) => assert!(m.starts_with("Invalid timestamp format: ")),
        _ => panic!("expected a property error"),
    }
}

#[test]
fn timestamp_fields() {
    let ts = INDITimestamp::from_str("0999-12-31T23:59:58.25").unwrap();
    assert_eq!(ts.fields(), (999, 12, 31, 23, 59, 58));
    assert_eq!(ts.to_string(), "0999-12-31T23:59:58.25");
    let ts = INDITimestamp::from_parts(2024, 1, 2, 3, 4, 5, None);
    assert_eq!(ts.to_string(), "2024-01-02T03:04:05");
    let ts = INDITimestamp::from_parts(2024, 1, 2, 3, 4, 5, Some("123".to_string()));
    assert_eq!(ts.to_string(), "2024-01-02T03:04:05.123");
}

#[test]
fn canonical_texts_print_back() {
    for text in [
        "2024-01-01T00:00:00",
        "1999-12-31T23:59:59.999",
        "0001-02-03T04:05:06.7",
        "0000-01-01T00:00:00",
        "2024-02-29T12:00:00.000",
        "2000-02-29T23:59:59",
        "9999-12-31T23:59:59.0001",
    ] {
        assert_eq!(INDITimestamp::from_str(text).unwrap().to_string(), text);
    }
}
