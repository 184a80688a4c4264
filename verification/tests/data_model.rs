use quarterly_etl::datasets_config::datasets_config::DatasetConfig;
use quarterly_etl::frame::table::Table;
use quarterly_etl::model::data_model::AllDatasets;
use quarterly_etl::model::data_model::DatasetWithConfig;

fn mock_dataframe() -> Table {
    Table::empty()
}

fn mock_dataset_config() -> DatasetConfig {
    DatasetConfig::new("test_dataset", "test_source", "test_identifier", false, None)
}

#[test]
fn test_dataset_with_config_creation() {
    let df = mock_dataframe();
    let config = mock_dataset_config();

    let dataset = DatasetWithConfig::new("test_dataset", df.clone(), config.clone());

    assert_eq!(dataset.name, "test_dataset");
    assert_eq!(dataset.dataset_config.name, "test_dataset");
    assert_eq!(dataset.dataframe, df);
}

#[test]
fn test_all_datasets_creation_and_items() {
    let dataset = DatasetWithConfig::new("test", mock_dataframe(), mock_dataset_config());

    let all_datasets = AllDatasets::new(
        dataset.clone(),
        dataset.clone(),
        dataset.clone(),
        dataset.clone(),
        dataset.clone(),
        dataset.clone(),
        dataset.clone(),
        dataset.clone(),
    );

    let items = all_datasets.items();

    assert_eq!(items.len(), 8);

    for ds in &items {
        assert_eq!(ds.name, "test");
    }
}

#[test]
fn items_come_in_the_order_of_the_places() {
    let named = |name: &'static str| DatasetWithConfig::new(name, mock_dataframe(), mock_dataset_config());
    let all = AllDatasets::new(
        named("a"),
        named("b"),
        named("c"),
        named("d"),
        named("e"),
        named("f"),
        named("g"),
        named("h"),
    );
    assert_eq!(all.fx_rates_df.name, "a");
    assert_eq!(all.ecb_inflation_df.name, "h");
    let names: Vec<&str> = all.items().iter().map(|d| d.name).collect();
    assert_eq!(names, vec!["a", "b", "c", "d", "e", "f", "g", "h"]);
}
