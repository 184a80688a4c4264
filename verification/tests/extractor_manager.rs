use quarterly_etl::datasets_config::datasets_config::get_all_datasets_configs;
use quarterly_etl::datasets_config::datasets_config::DatasetConfig;
use quarterly_etl::error::Failure;
use quarterly_etl::error::PipelineError;
use quarterly_etl::extractor::extractor_manager::assemble_datasets;
use quarterly_etl::extractor::extractor_manager::check_status;
use quarterly_etl::extractor::extractor_manager::fetch_request;
use quarterly_etl::extractor::extractor_manager::retrieve_dataset;
use quarterly_etl::extractor::extractor_manager::source_kind;
use quarterly_etl::extractor::extractor_manager::SourceKind;
use quarterly_etl::frame::column::Column;
use quarterly_etl::frame::table::Table;
use quarterly_etl::model::data_model::DatasetWithConfig;

fn sample_config(source: &'static str) -> DatasetConfig {
    DatasetConfig {
        source,
        identifier: "test_id",
        name: "test_dataset",
        quarterly_avg_required: true,
        quarterly_average_config: None,
    }
}

fn dummy_dataframe() -> Table {
    Table::new(vec![Column::text("col", vec![Some("1".to_string()), Some("2".to_string()), Some("3".to_string())])])
        .unwrap()
}

#[test]
fn sources_have_kinds() {
    assert_eq!(source_kind("csv"), Some(SourceKind::File));
    assert_eq!(source_kind("fred"), Some(SourceKind::JsonApi));
    assert_eq!(source_kind("ecb"), Some(SourceKind::XmlApi));
    assert_eq!(source_kind("CSV"), None);
    assert_eq!(source_kind(""), None);
}

#[test]
fn a_dataset_is_asked_from_its_source_under_its_identifier() {
    let request = fetch_request(&sample_config("fred")).unwrap();
    assert_eq!(request.kind, SourceKind::JsonApi);
    assert_eq!(request.identifier, "test_id");
    assert_eq!(
        fetch_request(&sample_config("ftp")).unwrap_err(),
        PipelineError::Config { missing_key: "ftp".to_string() }
    );
    let kinds: Vec<SourceKind> =
        get_all_datasets_configs().iter().map(|c| fetch_request(c).unwrap().kind).collect();
    assert_eq!(
        kinds,
        vec![
            SourceKind::File,
            SourceKind::JsonApi,
            SourceKind::JsonApi,
            SourceKind::JsonApi,
            SourceKind::JsonApi,
            SourceKind::XmlApi,
            SourceKind::XmlApi,
            SourceKind::XmlApi,
        ]
    );
}

#[test]
fn a_fetched_table_becomes_the_dataset_of_its_entry() {
    let config = sample_config("csv");
    let result = retrieve_dataset(config, dummy_dataframe());
    assert_eq!(result.name, "test_dataset");
    assert_eq!(result.dataset_config.source, "csv");
    assert_eq!(result.dataframe.height(), 3);
    assert_eq!(result.dataframe.width(), 1);
}

#[test]
fn statuses_from_200_to_299_are_successes() {
    assert_eq!(check_status(200, "u"), Ok(()));
    assert_eq!(check_status(204, "u"), Ok(()));
    assert_eq!(check_status(299, "u"), Ok(()));
    for status in [0, 100, 199, 300, 404, 500, u16::MAX] {
        assert_eq!(
            check_status(status, "http://x"),
            Err(PipelineError::Network { status, url: "http://x".to_string() })
        );
    }
}

#[test]
fn eight_datasets_take_their_places() {
    let names = ["a", "b", "c", "d", "e", "f", "g", "h", "i"];
    let fetched = |n: usize| -> Vec<DatasetWithConfig> {
        names[..n]
            .iter()
            .map(|name| DatasetWithConfig::new(name, dummy_dataframe(), sample_config("csv")))
            .collect()
    };
    let all = assemble_datasets(fetched(8)).unwrap();
    let placed: Vec<&str> = all.items().iter().map(|d| d.name).collect();
    assert_eq!(placed, names[..8].to_vec());
    let all = assemble_datasets(fetched(9)).unwrap();
    assert_eq!(all.items().len(), 8);
    assert_eq!(
        assemble_datasets(fetched(7)).unwrap_err(),
        PipelineError::Format { description: "fewer than eight datasets were fetched".to_string() }
    );
    assert_eq!(assemble_datasets(fetched(0)).unwrap_err().kind(), Failure::Format);
}
