use quarterly_etl::numeric::is_number;

#[test]
fn numbers_are_recognised() {
    for text in [
        "0", "1000.50", "-1", "+1", "1.", ".5", "1e5", "1E5", "1e+5", "1.5e-10", "-.5e3", "inf",
        "-inf", "+INF", "Infinity", "-infinity", "nan", "NaN", "+nan", "007", "12345678901234567890",
    ] {
        assert!(is_number(text), "{}", text);
        assert!(text.parse::<f64>().is_ok(), "{}", text);
    }
}

#[test]
fn other_texts_are_not() {
    for text in [
        "", ".", "+", "-", "e5", "1e", "1e+", "1.5.2", "not_a_number", " 1", "1 ", "1,5", "0x10",
        "--1", "+-1", "1e5.5", "in", "infinit", "nan1", "1f", "١", "1_000", "e", ".e1", "+.",
    ] {
        assert!(!is_number(text), "{}", text);
        assert!(text.parse::<f64>().is_err(), "{}", text);
    }
}
