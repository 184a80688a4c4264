use quarterly_etl::datasets_config::datasets_config::get_all_datasets_configs;
use quarterly_etl::datasets_config::datasets_config::DatasetConfig;
use quarterly_etl::datasets_config::datasets_config::QuarterlyAverageConfig;

#[test]
fn test_quarterly_average_config_creation() {
    let config = QuarterlyAverageConfig::new("date", "value", "avg_value", "%Y-%m");

    assert_eq!(config.date_column_name, "date");
    assert_eq!(config.target_column_name, "value");
    assert_eq!(config.target_column_alias, "avg_value");
    assert_eq!(config.date_format_mask, "%Y-%m");
}

#[test]
fn test_dataset_config_creation() {
    let quarterly_config = QuarterlyAverageConfig::new("date", "value", "avg_value", "%Y-%m");

    let dataset = DatasetConfig::new(
        "test_dataset",
        "test_source",
        "test_identifier",
        true,
        Some(quarterly_config),
    );

    assert_eq!(dataset.name, "test_dataset");
    assert_eq!(dataset.source, "test_source");
    assert_eq!(dataset.identifier, "test_identifier");
    assert!(dataset.quarterly_avg_required);
    assert!(dataset.quarterly_average_config.is_some());

    let qa_config = dataset.quarterly_average_config.unwrap();
    assert_eq!(qa_config.date_column_name, "date");
    assert_eq!(qa_config.target_column_name, "value");
    assert_eq!(qa_config.target_column_alias, "avg_value");
    assert_eq!(qa_config.date_format_mask, "%Y-%m");
}

#[test]
fn test_get_all_datasets_configs() {
    let configs = get_all_datasets_configs();

    assert!(!configs.is_empty());

    let sp500_config = configs.iter().find(|c| c.name == "sp500").expect("sp500 config missing");

    assert_eq!(sp500_config.source, "fred");
    assert_eq!(sp500_config.identifier, "SP500");
    assert!(sp500_config.quarterly_avg_required);
    assert!(sp500_config.quarterly_average_config.is_some());

    let qa_config = sp500_config.quarterly_average_config.unwrap();
    assert_eq!(qa_config.date_column_name, "date");
    assert_eq!(qa_config.target_column_name, "value");
    assert_eq!(qa_config.target_column_alias, "sp500_usd");
}

#[test]
fn registry_has_eight_distinct_names_in_order() {
    let configs = get_all_datasets_configs();
    let names: Vec<&str> = configs.iter().map(|c| c.name).collect();
    assert_eq!(
        names,
        vec![
            "fx_rates",
            "sp500",
            "us_gdp",
            "us_total_public_debt",
            "us_inflation",
            "eu_government_debt",
            "eu_gdp",
            "eu_inflation",
        ]
    );
    for config in &configs {
        assert_eq!(config.quarterly_avg_required, config.quarterly_average_config.is_some());
    }
}
