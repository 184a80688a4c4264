use quarterly_etl::error::Failure;
use quarterly_etl::error::PipelineError;
use quarterly_etl::extractor::fred::observations_table;
use quarterly_etl::extractor::fred::request_url;
use quarterly_etl::extractor::fred::table_from_response;
use quarterly_etl::extractor::fred::FredResponse;
use quarterly_etl::extractor::fred::Observation;
use quarterly_etl::frame::amount::Amount;
use quarterly_etl::frame::column::Cells;

fn observation(date: &str, value: &str) -> Observation {
    Observation { date: date.to_string(), value: value.to_string() }
}

#[test]
fn the_address_names_series_key_and_format() {
    assert_eq!(
        request_url("dummy_series", Some("http://127.0.0.1:1234/mock-endpoint"), "mocked_api_key"),
        "http://127.0.0.1:1234/mock-endpoint?series_id=dummy_series&api_key=mocked_api_key&file_type=json"
    );
    assert_eq!(
        request_url("GDP", None, "k"),
        "https://api.stlouisfed.org/fred/series/observations?series_id=GDP&api_key=k&file_type=json"
    );
}

#[test]
fn the_table_of_a_series() {
    let observations = vec![
        observation("1966-01-01", "320999"),
        observation("1966-04-01", "316097"),
        observation("1966-07-01", "324748"),
    ];
    let table = observations_table(&observations).unwrap();
    assert_eq!(table.column_names(), vec!["date".to_string(), "value".to_string()]);
    assert_eq!(
        table.column("date").unwrap().cells,
        Cells::Text(vec![
            Some("1966-01-01".to_string()),
            Some("1966-04-01".to_string()),
            Some("1966-07-01".to_string())
        ])
    );
    assert_eq!(
        table.column("value").unwrap().cells,
        Cells::Number(vec![
            Some(Amount::Reading("320999".to_string())),
            Some(Amount::Reading("316097".to_string())),
            Some(Amount::Reading("324748".to_string()))
        ])
    );
}

#[test]
fn the_first_value_that_is_no_number_is_reported() {
    let observations = vec![
        observation("1966-01-01", "320999"),
        observation("1966-04-01", "."),
        observation("1966-07-01", "x"),
    ];
    assert_eq!(
        observations_table(&observations).unwrap_err(),
        PipelineError::Parse { field: "value".to_string(), raw_value: ".".to_string() }
    );
}

#[test]
fn a_reply_is_checked_for_its_status_first() {
    let response = FredResponse { observations: vec![observation("1966-01-01", ".")] };
    assert_eq!(
        table_from_response(404, "http://localhost/x", &response).unwrap_err(),
        PipelineError::Network { status: 404, url: "http://localhost/x".to_string() }
    );
    assert_eq!(
        table_from_response(200, "http://localhost/x", &response).unwrap_err().kind(),
        Failure::Parse
    );
    let response = FredResponse { observations: vec![] };
    assert_eq!(table_from_response(200, "http://localhost/x", &response).unwrap().height(), 0);
}
