use indi_rs::error::Error;
use indi_rs::format::{layout_sexagesimal, number_text, number_text_parts, NumberFormat};

#[test]
fn test_number_format_parse() {
    assert!(matches!(
        NumberFormat::parse("%8.3m").unwrap(),
        NumberFormat::Sexagesimal { width: 8, precision: 3 }
    ));
    assert!(matches!(NumberFormat::parse("%.2f").unwrap(), NumberFormat::Printf(_)));
}

#[test]
fn number_formats_that_are_refused() {
    for bad in ["8.3m", "%d%d", "no percent", ""] {
        match NumberFormat::parse(bad) {
            Err(Error::Format(m)) => assert_eq!(m, "Invalid printf format"),
            _ => panic!("{} should be refused", bad),
        }
    }
    match NumberFormat::parse("%99999999999999999999999.3m") {
        Err(Error::Format(m)) => assert_eq!(m, "Invalid width in sexagesimal format"),
        _ => panic!("an oversized width should be refused"),
    }
    match NumberFormat::parse("%8.99999999999999999999999m") {
        Err(Error::Format(m)) => assert_eq!(m, "Invalid precision in sexagesimal format"),
        _ => panic!("an oversized precision should be refused"),
    }
}

#[test]
fn number_formats_print_back() {
    assert_eq!(NumberFormat::parse("%10.6m").unwrap().to_string(), "%10.6m");
    assert_eq!(NumberFormat::parse("%.2f").unwrap().to_string(), "%.2f");
    assert_eq!(NumberFormat::parse("%007.03m").unwrap().to_string(), "%7.3m");
    assert_eq!(NumberFormat::Sexagesimal { width: 9, precision: 5 }.to_string(), "%9.5m");
}

#[test]
fn sexagesimal_layouts() {
    // Sexagesimal examples, given by their sign and integer parts.
    assert_eq!(layout_sexagesimal(false, 123, 45, 0, 7, 3).unwrap(), " 123:45");
    assert_eq!(layout_sexagesimal(true, 123, 45, 0, 7, 3).unwrap(), "-123:45");
    assert_eq!(layout_sexagesimal(false, 1, 30, 0, 7, 3).unwrap(), "   1:30");
    assert_eq!(layout_sexagesimal(false, 1, 30, 0, 9, 5).unwrap(), "  1:30.0");
    assert_eq!(layout_sexagesimal(false, 1, 31, 5, 9, 5).unwrap(), "  1:31.5");
    assert_eq!(layout_sexagesimal(true, 1, 31, 5, 9, 5).unwrap(), "-1:31.5");
    assert_eq!(layout_sexagesimal(false, 1, 30, 0, 9, 6).unwrap(), "  1:30:00");
    assert_eq!(layout_sexagesimal(false, 12, 30, 0, 9, 6).unwrap(), " 12:30:00");
    assert_eq!(layout_sexagesimal(true, 1, 30, 0, 9, 6).unwrap(), "-1:30:00");
    assert_eq!(layout_sexagesimal(false, 1, 30, 300, 9, 8).unwrap(), "  1:30:30.0");
    assert_eq!(layout_sexagesimal(false, 12, 30, 300, 9, 8).unwrap(), " 12:30:30.0");
    assert_eq!(layout_sexagesimal(false, 1, 30, 3000, 9, 9).unwrap(), "  1:30:30.00");
    assert_eq!(layout_sexagesimal(true, 1, 30, 3000, 9, 9).unwrap(), "-1:30:30.00");
    assert_eq!(layout_sexagesimal(false, 5, 7, 95, 7, 8).unwrap(), "   5:07:09.5");
}

#[test]
fn sexagesimal_precision_must_be_known() {
    match layout_sexagesimal(false, 1, 2, 3, 9, 4) {
        Err(Error::Format(m)) => assert_eq!(m, "Invalid sexagesimal precision"),
        _ => panic!("precision 4 should be refused"),
    }
}

#[test]
fn number_texts() {
    for ok in ["12", "12.5", "-12:30", "12:30:00", "12 30", "  +1.5;2.5 \t", "", ".", "1.:2.", "١٢"] {
        assert!(number_text(ok), "{:?} should be a number text", ok);
    }
    for bad in ["1.2.3", "12a", "--1", "1:2.3.4", "1,5"] {
        assert!(!number_text(bad), "{:?} should not be a number text", bad);
    }
    assert_eq!(number_text_parts("12:30:00"), vec!["12", "30", "00"]);
    assert_eq!(number_text_parts(" -12 30 "), vec!["-12", "30"]);
    assert_eq!(number_text_parts("1::2"), vec!["1", "", "2"]);
    assert_eq!(number_text_parts(""), vec![""]);
}
