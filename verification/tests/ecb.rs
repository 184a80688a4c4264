use std::collections::HashMap;

use quarterly_etl::error::Failure;
use quarterly_etl::error::PipelineError;
use quarterly_etl::extractor::ecb::parse_xml;
use quarterly_etl::extractor::ecb::readings_table;
use quarterly_etl::extractor::ecb::request_url;
use quarterly_etl::extractor::ecb::table_from_response;
use quarterly_etl::extractor::ecb::validate_quarters_and_values;
use quarterly_etl::extractor::ecb::Reading;
use quarterly_etl::frame::amount::Amount;
use quarterly_etl::frame::column::Cells;

fn as_map(readings: Vec<Reading>) -> HashMap<String, f64> {
    readings.into_iter().map(|r| (r.quarter, r.value.parse::<f64>().unwrap())).collect()
}

#[test]
fn test_parse_xml_basic_case() {
    let xml_data = r#"
        <root>
            <generic:ObsDimension value="2024-Q1" xmlns:generic="generic"/>
            <generic:ObsValue value="1000.50" xmlns:generic="generic"/>
            <generic:ObsDimension value="2024-Q2" xmlns:generic="generic"/>
            <generic:ObsValue value="2000.75" xmlns:generic="generic"/>
            <generic:ObsDimension value="2024-Q3" xmlns:generic="generic"/>
            <generic:ObsValue value="3000.25" xmlns:generic="generic"/>
        </root>
        "#;

    let result = as_map(parse_xml(xml_data).expect("XML parsing failed"));

    let mut expected = HashMap::new();
    expected.insert("2024-Q1".to_string(), 1000.50);
    expected.insert("2024-Q2".to_string(), 2000.75);
    expected.insert("2024-Q3".to_string(), 3000.25);

    assert_eq!(result, expected);
}

#[test]
fn test_parse_xml_empty_input() {
    let xml_data = r#"<root></root>"#;

    let result = as_map(parse_xml(xml_data).expect("Should return an empty map"));

    let expected: HashMap<String, f64> = HashMap::new();

    assert_eq!(result, expected);
}

#[test]
fn test_parse_xml_invalid_number() {
    let xml_data = r#"
        <root>
            <generic:ObsDimension value="2025-Q3" xmlns:generic="generic"/>
            <generic:ObsValue value="not_a_number" xmlns:generic="generic"/>
        </root>
        "#;

    let result = parse_xml(xml_data);

    assert!(result.is_err(), "Should return an error due to invalid number parsing");
    assert_eq!(
        result.unwrap_err(),
        PipelineError::Parse { field: "value".to_string(), raw_value: "not_a_number".to_string() }
    );
}

#[test]
fn a_period_without_a_value_is_a_failure_of_the_format() {
    let xml_data = r#"
        <root>
            <generic:ObsDimension value="2025-Q1" xmlns:generic="generic"/>
            <!-- Missing ObsValue -->
            <generic:ObsDimension value="2025-Q2" xmlns:generic="generic"/>
            <generic:ObsValue value="1500.00" xmlns:generic="generic"/>
        </root>
        "#;

    assert_eq!(parse_xml(xml_data).unwrap_err().kind(), Failure::Format);
}

#[test]
fn readings_keep_the_order_and_the_text_of_the_document() {
    let xml_data = r#"<a><b:generic:ObsDimension id="7" value="2024-Q2"/><generic:ObsValue value="-1e3"/><x value="9"/><generic:ObsDimension value="2024-Q1"/><generic:ObsValue value=".5"/><z/></a>"#;
    assert_eq!(
        parse_xml(xml_data).unwrap(),
        vec![
            Reading { quarter: "2024-Q2".to_string(), value: "-1e3".to_string() },
            Reading { quarter: "2024-Q1".to_string(), value: ".5".to_string() },
        ]
    );
}

#[test]
fn a_period_that_comes_twice_keeps_its_place_and_its_last_value() {
    let xml_data = r#"<a><generic:ObsDimension value="2024-Q1"/><generic:ObsValue value="1"/><generic:ObsDimension value="2024-Q2"/><generic:ObsValue value="2"/><generic:ObsDimension value="2024-Q1"/><generic:ObsValue value="3"/></a>"#;
    assert_eq!(
        parse_xml(xml_data).unwrap(),
        vec![
            Reading { quarter: "2024-Q1".to_string(), value: "3".to_string() },
            Reading { quarter: "2024-Q2".to_string(), value: "2".to_string() },
        ]
    );
}

#[test]
fn elements_that_are_not_empty_are_not_read() {
    let xml_data = r#"<a><generic:ObsDimension value="2024-Q1"></generic:ObsDimension><generic:ObsValue value="1"></generic:ObsValue></a>"#;
    assert_eq!(parse_xml(xml_data).unwrap(), vec![]);
}

#[test]
fn an_attribute_that_is_not_well_formed_is_a_failure_of_the_format() {
    let xml_data = r#"<a><generic:ObsDimension value="2024-Q1" broken/><generic:ObsValue value="1"/></a>"#;
    assert_eq!(parse_xml(xml_data).unwrap_err().kind(), Failure::Format);
    // in an element that is not read it does no harm
    let xml_data = r#"<a><other broken/><generic:ObsDimension value="2024-Q1"/><generic:ObsValue value="1"/></a>"#;
    assert_eq!(parse_xml(xml_data).unwrap().len(), 1);
}

#[test]
fn a_document_that_cannot_be_read_to_its_end_gives_nothing() {
    let xml_data = r#"<a><generic:ObsDimension value="2024-Q1"/><generic:ObsValue value="1"/><!-- <generic:ObsDimension value="2024-Q2"/>"#;
    assert_eq!(
        parse_xml(xml_data).unwrap_err(),
        PipelineError::Format {
            description: "the document cannot be read to its end".to_string()
        }
    );
}

#[test]
fn failures_of_reading_say_what_is_wrong() {
    let xml_data = r#"<a><generic:ObsDimension value="2024-Q1" broken/></a>"#;
    assert_eq!(
        parse_xml(xml_data).unwrap_err(),
        PipelineError::Format { description: "an attribute is not well formed".to_string() }
    );
    let xml_data = r#"<a><generic:ObsDimension value="2024-Q1"/></a>"#;
    assert_eq!(
        parse_xml(xml_data).unwrap_err(),
        PipelineError::Format {
            description: "the periods and the values are not the same in number".to_string()
        }
    );
    let xml_data = r#"<a><generic:ObsValue value="1"/><generic:ObsValue value="x1" value="2"/></a>"#;
    assert_eq!(
        parse_xml(xml_data).unwrap_err(),
        PipelineError::Parse { field: "value".to_string(), raw_value: "x1".to_string() }
    );
}

#[test]
fn validation_compares_the_counts() {
    let one = vec!["a".to_string()];
    let two = vec!["a".to_string(), "b".to_string()];
    assert_eq!(validate_quarters_and_values(&one, &one), Ok(()));
    assert_eq!(validate_quarters_and_values(&one, &two).unwrap_err().kind(), Failure::Format);
}

#[test]
fn the_address_is_the_base_and_the_series() {
    assert_eq!(
        request_url("ICP/M.U2.N.XEF000.4.ANR", None),
        "https://data-api.ecb.europa.eu/service/data/ICP/M.U2.N.XEF000.4.ANR"
    );
    assert_eq!(request_url("/mock-endpoint", Some("http://127.0.0.1:1234")), "http://127.0.0.1:1234/mock-endpoint");
}

#[test]
fn the_table_of_a_reply() {
    let xml_response = r#"
        <root>
            <generic:ObsDimension value="2023-Q1" xmlns:generic="generic"/>
            <generic:ObsValue value="1.23" xmlns:generic="generic"/>
            <generic:ObsDimension value="2023-Q2" xmlns:generic="generic"/>
            <generic:ObsValue value="2.34" xmlns:generic="generic"/>
        </root>
        "#;
    let table = table_from_response(200, "http://localhost/mock-endpoint", xml_response).unwrap();
    assert_eq!(table.column_names(), vec!["quarter".to_string(), "value".to_string()]);
    assert_eq!(
        table.column("quarter").unwrap().cells,
        Cells::Text(vec![Some("2023-Q1".to_string()), Some("2023-Q2".to_string())])
    );
    assert_eq!(
        table.column("value").unwrap().cells,
        Cells::Number(vec![
            Some(Amount::Reading("1.23".to_string())),
            Some(Amount::Reading("2.34".to_string()))
        ])
    );
    assert_eq!(table, readings_table(&parse_xml(xml_response).unwrap()));
}

#[test]
fn a_reply_that_is_no_success_is_a_failure_of_the_network() {
    assert_eq!(
        table_from_response(500, "http://localhost/mock-endpoint", "<root></root>").unwrap_err(),
        PipelineError::Network { status: 500, url: "http://localhost/mock-endpoint".to_string() }
    );
    assert!(table_from_response(299, "u", "<root></root>").is_ok());
    assert_eq!(table_from_response(300, "u", "<root></root>").unwrap_err().kind(), Failure::Network);
    assert_eq!(table_from_response(199, "u", "<root></root>").unwrap_err().kind(), Failure::Network);
}
