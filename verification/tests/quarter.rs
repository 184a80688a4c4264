use quarterly_etl::error::PipelineError;
use quarterly_etl::transformer::calendar::calendar_fields_of;
use quarterly_etl::transformer::calendar::check_mask;
use quarterly_etl::transformer::quarter::label_of;
use quarterly_etl::transformer::quarter::quarter_of;
use quarterly_etl::transformer::quarter::render_integer;
use quarterly_etl::transformer::quarter::render_natural;

#[test]
fn months_fall_in_quarters() {
    let quarters: Vec<Option<u8>> = (1..=12).map(quarter_of).collect();
    assert_eq!(
        quarters,
        vec![1, 1, 1, 2, 2, 2, 3, 3, 3, 4, 4, 4].into_iter().map(Some).collect::<Vec<_>>()
    );
    assert_eq!(quarter_of(0), None);
    assert_eq!(quarter_of(13), None);
    assert_eq!(quarter_of(-1), None);
    for month in 1..12 {
        assert!(quarter_of(month) <= quarter_of(month + 1));
    }
}

#[test]
fn labels_are_year_hyphen_quarter() {
    assert_eq!(label_of(2023, 1), "2023-Q1");
    assert_eq!(label_of(2023, 6), "2023-Q2");
    assert_eq!(label_of(1999, 9), "1999-Q3");
    assert_eq!(label_of(2024, 12), "2024-Q4");
    assert_eq!(label_of(0, 1), "0-Q1");
    assert_eq!(label_of(-5, 2), "-5-Q1");
    assert_eq!(label_of(i32::MIN, 12), "-2147483648-Q4");
}

#[test]
fn integers_are_rendered_in_decimal() {
    for n in [0, 7, 10, 99, 100, 2023, i32::MAX, -1, -10, -2023, i32::MIN] {
        assert_eq!(render_integer(n), n.to_string());
    }
    for n in [0u64, 9, 10, 1234567890, u64::MAX] {
        assert_eq!(render_natural(n), n.to_string());
    }
}

#[test]
fn masks_are_checked() {
    assert!(check_mask("%Y-%m-%d"));
    assert!(check_mask("%Y-%m"));
    assert!(check_mask(""));
    assert!(check_mask("avg_value"));
    assert!(!check_mask("%"));
    assert!(!check_mask("%Y-%"));
    assert!(check_mask("%Y %3f"));
    assert!(check_mask("%6f"));
    assert!(check_mask("%Y-%m-%d %H:%M:%S.%9f"));
    assert!(!check_mask("%Y %3"));
    assert!(!check_mask("%6x"));
    assert!(!check_mask("%9"));
    assert!(check_mask(&"a".repeat(13107)));
    assert!(!check_mask(&"a".repeat(13108)));
    assert!(check_mask(&"é".repeat(6553)));
    assert!(!check_mask(&"é".repeat(6554)));
}

#[test]
fn dates_are_read_under_a_mask() {
    let texts = vec![
        Some("2023-01-15".to_string()),
        None,
        Some("15.01.2023".to_string()),
        Some("2023-13-01".to_string()),
        Some("2023-02-30".to_string()),
        Some("1999-12-31".to_string()),
    ];
    let fields = calendar_fields_of(&texts, "date", "%Y-%m-%d").unwrap();
    assert_eq!(fields, vec![Some((2023, 1)), None, None, None, None, Some((1999, 12))]);
    let other = calendar_fields_of(&texts, "date", "%d.%m.%Y").unwrap();
    assert_eq!(other, vec![None, None, Some((2023, 1)), None, None, None]);
    let full = calendar_fields_of(&vec![Some("March 5, 2021".to_string())], "date", "%B %-d, %Y");
    assert_eq!(full.unwrap(), vec![Some((2021, 3))]);
    assert!(calendar_fields_of(&texts, "date", "%Y-%m-%d %H").is_err());
    assert!(calendar_fields_of(&texts, "date", "%Y-%m-%").is_err());
    assert_eq!(calendar_fields_of(&vec![], "date", "%Y").unwrap(), vec![]);
    assert_eq!(
        calendar_fields_of(&texts, "date", "%Y-%m-%").unwrap_err(),
        PipelineError::Parse { field: "date".to_string(), raw_value: "%Y-%m-%".to_string() }
    );
    let long = "%F".repeat(6553);
    assert_eq!(calendar_fields_of(&texts, "date", &long).unwrap(), vec![None; 6]);
}
