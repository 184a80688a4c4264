use std::collections::HashMap;

use quarterly_etl::datasets_config::datasets_config::DatasetConfig;
use quarterly_etl::datasets_config::datasets_config::QuarterlyAverageConfig;
use quarterly_etl::error::Failure;
use quarterly_etl::error::PipelineError;
use quarterly_etl::frame::amount::Amount;
use quarterly_etl::frame::column::Cells;
use quarterly_etl::frame::column::Column;
use quarterly_etl::frame::table::Table;
use quarterly_etl::model::data_model::AllDatasets;
use quarterly_etl::model::data_model::DatasetWithConfig;
use quarterly_etl::transformer::normalize::average_by_quarter;
use quarterly_etl::transformer::normalize::convert_eu_to_usd;
use quarterly_etl::transformer::normalize::join_all_datasets;
use quarterly_etl::transformer::normalize::normalize_data;
use quarterly_etl::transformer::normalize::normalize_dataset;
use quarterly_etl::transformer::normalize::process_quarterly_average;
use quarterly_etl::transformer::normalize::quarter_labels;
use quarterly_etl::transformer::normalize::rename_columns;

fn value_of(amount: &Amount) -> f64 {
    match amount {
        Amount::Reading(text) => text.parse::<f64>().unwrap(),
        Amount::Mean(members) => {
            members.iter().map(value_of).sum::<f64>() / (members.len() as f64)
        }
        Amount::Product(left, right) => value_of(left) * value_of(right),
    }
}

fn texts(name: &str, cells: &[&str]) -> Column {
    Column::text(name, cells.iter().map(|c| Some(c.to_string())).collect())
}

fn numbers(name: &str, cells: &[f64]) -> Column {
    Column::number(name, cells.iter().map(|c| Some(Amount::Reading(format!("{:?}", c)))).collect())
}

fn text_cells(table: &Table, name: &str) -> Vec<Option<String>> {
    match &table.column(name).unwrap().cells {
        Cells::Text(cells) => cells.clone(),
        Cells::Number(_) => panic!("a text column was expected"),
    }
}

fn number_cells(table: &Table, name: &str) -> Vec<Option<f64>> {
    match &table.column(name).unwrap().cells {
        Cells::Number(cells) => cells.iter().map(|c| c.as_ref().map(value_of)).collect(),
        Cells::Text(_) => panic!("a column of amounts was expected"),
    }
}

fn sorted_rows(table: &Table, key: &str, metric: &str) -> Vec<(String, f64)> {
    let keys = text_cells(table, key);
    let values = number_cells(table, metric);
    let mut rows: Vec<(String, f64)> =
        keys.into_iter().zip(values).map(|(k, v)| (k.unwrap(), v.unwrap())).collect();
    rows.sort_by(|a, b| a.0.cmp(&b.0));
    rows
}

#[test]
fn test_process_quarterly_average() {
    let dates = texts(
        "date",
        &[
            "2023-01-15",
            "2023-02-20", // Q1
            "2023-04-10", // Q2
            "2023-07-25",
            "2023-08-05", // Q3
            "2023-11-01", // Q4
        ],
    );

    let values = numbers("value", &[10.0, 20.0, 30.0, 40.0, 60.0, 90.0]);
    let df = Table::new(vec![dates, values]).unwrap();
    let result =
        process_quarterly_average("date", "value", "quarterly_avg", "%Y-%m-%d", df).unwrap();
    let sorted = sorted_rows(&result, "quarter", "quarterly_avg");
    let quarter: Vec<&str> = sorted.iter().map(|r| r.0.as_str()).collect();
    let avg: Vec<f64> = sorted.iter().map(|r| r.1).collect();

    let expected_quarters = vec!["2023-Q1", "2023-Q2", "2023-Q3", "2023-Q4"];
    let expected_avg = vec![(10.0 + 20.0) / 2.0, 30.0, (40.0 + 60.0) / 2.0, 90.0];

    assert_eq!(quarter, expected_quarters);
    assert_eq!(avg.len(), expected_avg.len());
    for (a, e) in avg.iter().zip(expected_avg.iter()) {
        assert!((a - e).abs() < 1e-6);
    }
}

fn mock_dataframe(column_names: Option<Vec<&str>>) -> Table {
    let names = column_names.unwrap_or(vec!["date", "value"]);
    Table::new(vec![
        texts(names[0], &["2023-01-01", "2023-02-01", "2023-03-01"]),
        numbers(names[1], &[1.0, 2.0, 3.0]),
    ])
    .unwrap()
}

fn mock_dataset(name: &'static str, with_quarterly: bool) -> DatasetWithConfig {
    let config = if with_quarterly {
        DatasetConfig::new(
            name,
            "test_source",
            "test_id",
            true,
            Some(QuarterlyAverageConfig::new("date", "value", "%Y-%m", "avg_value")),
        )
    } else {
        DatasetConfig::new(name, "test_source", "test_id", false, None)
    };

    DatasetWithConfig::new(name, mock_dataframe(None), config)
}

#[test]
fn test_normalize_data_mixed_datasets() {
    let dataset1 = mock_dataset("quarterly_dataset", true);
    let dataset2 = mock_dataset("regular_dataset", false);

    let all = AllDatasets::new(
        dataset1.clone(),
        dataset2.clone(),
        dataset2.clone(),
        dataset2.clone(),
        dataset2.clone(),
        dataset2.clone(),
        dataset2.clone(),
        dataset2.clone(),
    );

    let normalized = normalize_data(all).unwrap();

    assert_eq!(normalized.len(), 8);

    let first = &normalized[0];
    assert_eq!(first.name, "quarterly_dataset");
    assert!(first.dataset_config.quarterly_avg_required);

    let others_all_regular =
        normalized[1..].iter().all(|ds| !ds.dataset_config.quarterly_avg_required);
    assert!(others_all_regular);

    // the datasets that need no average pass through with their tables
    for ds in &normalized[1..] {
        assert_eq!(ds.name, "regular_dataset");
        assert_eq!(ds.dataframe, mock_dataframe(None));
    }
    // no date of the first dataset can be read under the mask `avg_value`
    assert_eq!(first.dataframe.column_names(), vec!["quarter".to_string(), "%Y-%m".to_string()]);
    assert_eq!(first.dataframe.height(), 0);
}

#[test]
fn test_rename_columns() {
    fn check_column_rename(dataset_name: &'static str, expected_columns: Vec<&str>) {
        let df_config = DatasetConfig::new(dataset_name, "test_source", "test_id", false, None);
        let df = mock_dataframe(Some(vec!["quarter", "value"]));
        let df_with_config = DatasetWithConfig::new(dataset_name, df, df_config);
        let renamed_df = rename_columns(vec![df_with_config]).unwrap();
        let expected_df = mock_dataframe(Some(expected_columns));
        assert_eq!(renamed_df[0].dataframe, expected_df);
    }

    check_column_rename("fx_rates", vec!["quarter", "eur_to_usd"]);
    check_column_rename("eu_government_debt", vec!["quarter", "eu_government_debt"]);
    check_column_rename("eu_gdp", vec!["quarter", "eu_gdp"]);
    check_column_rename("eu_inflation", vec!["quarter", "eu_inflation"]);
    check_column_rename("unchanged", vec!["quarter", "value"]);
}

fn create_df(name: &str, quarters: Vec<&str>, values: Vec<f64>) -> Table {
    Table::new(vec![texts("quarter", &quarters), numbers(name, &values)]).unwrap()
}

fn create_fx_df(quarters: Vec<&str>, rates: Vec<f64>) -> Table {
    Table::new(vec![texts("quarter", &quarters), numbers("eur_to_usd", &rates)]).unwrap()
}

#[test]
fn test_convert_eu_to_usd() {
    let quarters = vec!["2023-Q1", "2023-Q2"];

    let gdp_df = create_df("eu_gdp", quarters.clone(), vec![100.0, 200.0]);
    let debt_df = create_df("eu_government_debt", quarters.clone(), vec![300.0, 400.0]);
    let inflation_df = create_df("eu_inflation", quarters.clone(), vec![2.0, 2.5]);
    let fx_df = create_fx_df(quarters.clone(), vec![1.1, 1.2]);
    let us_df = create_df("us_gdp", quarters.clone(), vec![500.0, 600.0]);

    let dummy_config =
        DatasetConfig::new("dummy_name", "dummy_source", "dummy_identifier", false, None);

    let datasets = vec![
        DatasetWithConfig::new("eu_gdp", gdp_df, dummy_config.clone()),
        DatasetWithConfig::new("eu_government_debt", debt_df, dummy_config.clone()),
        DatasetWithConfig::new("eu_inflation", inflation_df, dummy_config.clone()),
        DatasetWithConfig::new("fx_rates", fx_df, dummy_config.clone()),
        DatasetWithConfig::new("us_gdp", us_df.clone(), dummy_config.clone()),
    ];

    let result = convert_eu_to_usd(datasets).unwrap();

    let result_map: HashMap<&str, &Table> = result.iter().map(|d| (d.name, &d.dataframe)).collect();

    let gdp_converted = number_cells(result_map.get("eu_gdp").unwrap(), "eu_gdp_converted");
    let val = gdp_converted[0].unwrap();
    assert!((val - 110.0).abs() < 1e-6);
    assert_eq!(gdp_converted[1], Some(240.0));

    let debt_converted = number_cells(
        result_map.get("eu_government_debt").unwrap(),
        "eu_government_debt_converted",
    );
    assert_eq!(debt_converted[0], Some(330.0));
    assert_eq!(debt_converted[1], Some(480.0));

    let inflation_converted = number_cells(result_map.get("eu_inflation").unwrap(), "eu_inflation");
    assert_eq!(inflation_converted[0], Some(2.0));
    assert_eq!(inflation_converted[1], Some(2.5));

    // Check that non-EU dataset is untouched
    assert!(result_map.contains_key("us_gdp"));
    assert_eq!(**result_map.get("us_gdp").unwrap(), us_df);

    // the datasets that are not converted come first, in their order
    let names: Vec<&str> = result.iter().map(|d| d.name).collect();
    assert_eq!(names, vec!["eu_inflation", "fx_rates", "us_gdp", "eu_gdp", "eu_government_debt"]);
    // the converted tables hold the quarter and the converted metric only
    assert_eq!(
        result_map.get("eu_gdp").unwrap().column_names(),
        vec!["quarter".to_string(), "eu_gdp_converted".to_string()]
    );
}

fn average_of(dates: &[&str], values: &[f64]) -> Vec<(String, f64)> {
    let df = Table::new(vec![texts("date", dates), numbers("value", values)]).unwrap();
    let result = process_quarterly_average("date", "value", "average", "%Y-%m-%d", df).unwrap();
    sorted_rows(&result, "quarter", "average")
}

#[test]
fn first_quarter_is_averaged() {
    assert_eq!(
        average_of(&["2023-01-15", "2023-02-20"], &[10.0, 20.0]),
        vec![("2023-Q1".to_string(), 15.0)]
    );
}

#[test]
fn second_quarter_is_averaged() {
    assert_eq!(average_of(&["2023-04-10"], &[30.0]), vec![("2023-Q2".to_string(), 30.0)]);
}

#[test]
fn third_quarter_is_averaged() {
    assert_eq!(
        average_of(&["2023-07-25", "2023-08-05"], &[40.0, 60.0]),
        vec![("2023-Q3".to_string(), 50.0)]
    );
}

#[test]
fn fourth_quarter_is_averaged() {
    assert_eq!(average_of(&["2023-11-01"], &[90.0]), vec![("2023-Q4".to_string(), 90.0)]);
}

#[test]
fn rows_without_a_date_are_dropped_and_missing_values_left_out() {
    let dates = Column::text(
        "date",
        vec![
            Some("2023-01-15".to_string()),
            Some("no date".to_string()),
            None,
            Some("2023-02-20".to_string()),
            Some("2023-05-01".to_string()),
        ],
    );
    let values = Column::number(
        "value",
        vec![
            Some(Amount::Reading("10".to_string())),
            Some(Amount::Reading("1000".to_string())),
            Some(Amount::Reading("2000".to_string())),
            None,
            None,
        ],
    );
    let df = Table::new(vec![dates, values]).unwrap();
    let result = process_quarterly_average("date", "value", "average", "%Y-%m-%d", df).unwrap();
    assert_eq!(
        text_cells(&result, "quarter"),
        vec![Some("2023-Q1".to_string()), Some("2023-Q2".to_string())]
    );
    assert_eq!(number_cells(&result, "average"), vec![Some(10.0), None]);
    match &result.column("average").unwrap().cells {
        Cells::Number(cells) => {
            assert_eq!(cells[0], Some(Amount::Mean(vec![Amount::Reading("10".to_string())])));
        }
        Cells::Text(_) => panic!("a column of amounts was expected"),
    }
}

#[test]
fn months_without_a_day_are_read() {
    let df = Table::new(vec![
        texts("quarter", &["2023-01", "2023-03", "2023-12"]),
        numbers("value", &[2.0, 4.0, 5.0]),
    ])
    .unwrap();
    let result = process_quarterly_average("quarter", "value", "value", "%Y-%m", df).unwrap();
    assert_eq!(
        sorted_rows(&result, "quarter", "value"),
        vec![("2023-Q1".to_string(), 3.0), ("2023-Q4".to_string(), 5.0)]
    );
}

#[test]
fn quarterly_average_fails_as_stated() {
    let table = || mock_dataframe(None);
    let kind = |result: Result<Table, PipelineError>| result.unwrap_err().kind();
    assert_eq!(
        kind(process_quarterly_average("missing", "value", "a", "%Y-%m-%d", table())),
        Failure::Format
    );
    assert_eq!(
        kind(process_quarterly_average("value", "value", "a", "%Y-%m-%d", table())),
        Failure::Format
    );
    assert_eq!(
        kind(process_quarterly_average("date", "value", "a", "%Y-%m-%", table())),
        Failure::Parse
    );
    assert_eq!(
        kind(process_quarterly_average("date", "value", "a", "%Y-%m-%d %H", table())),
        Failure::Parse
    );
    assert_eq!(
        kind(process_quarterly_average("date", "missing", "a", "%Y-%m-%d", table())),
        Failure::Format
    );
    assert_eq!(
        kind(process_quarterly_average("date", "date", "a", "%Y-%m-%d", table())),
        Failure::Format
    );
    assert_eq!(
        kind(process_quarterly_average("date", "value", "quarter", "%Y-%m-%d", table())),
        Failure::Format
    );
    assert_eq!(
        kind(process_quarterly_average("date", "quarter", "a", "%Y-%m-%d", table())),
        Failure::Format
    );
}

#[test]
fn labels_follow_year_and_month() {
    let labels = quarter_labels(&vec![Some((2023, 1)), None, Some((1999, 12)), Some((-44, 7))]);
    assert_eq!(
        labels,
        vec![
            Some("2023-Q1".to_string()),
            None,
            Some("1999-Q4".to_string()),
            Some("-44-Q3".to_string())
        ]
    );
}

#[test]
fn averaging_a_table_of_quarters_again_changes_nothing_but_the_form() {
    let labels = vec![
        Some("2023-Q2".to_string()),
        Some("2023-Q1".to_string()),
        Some("2022-Q4".to_string()),
    ];
    let values = vec![
        Some(Amount::Reading("1.5".to_string())),
        None,
        Some(Amount::Mean(vec![
            Amount::Reading("2".to_string()),
            Amount::Reading("4".to_string()),
        ])),
    ];
    let table = average_by_quarter(&labels, &values, "metric");
    assert_eq!(text_cells(&table, "quarter"), labels);
    assert_eq!(number_cells(&table, "metric"), vec![Some(1.5), None, Some(3.0)]);
    let again = average_by_quarter(
        &text_cells(&table, "quarter"),
        &match &table.column("metric").unwrap().cells {
            Cells::Number(cells) => cells.clone(),
            Cells::Text(_) => panic!("a column of amounts was expected"),
        },
        "metric",
    );
    assert_eq!(text_cells(&again, "quarter"), labels);
    assert_eq!(number_cells(&again, "metric"), vec![Some(1.5), None, Some(3.0)]);
}

#[test]
fn a_dataset_that_requires_an_average_must_say_how() {
    let config = DatasetConfig::new("broken", "csv", "id", true, None);
    let dataset = DatasetWithConfig::new("broken", mock_dataframe(None), config);
    assert_eq!(normalize_dataset(dataset).unwrap_err().kind(), Failure::Config);
}

#[test]
fn normalizing_stops_at_the_first_failure_in_order() {
    let good = mock_dataset("regular_dataset", false);
    let no_how = DatasetWithConfig::new(
        "broken",
        mock_dataframe(None),
        DatasetConfig::new("broken", "csv", "id", true, None),
    );
    let no_column = DatasetWithConfig::new(
        "other",
        mock_dataframe(None),
        DatasetConfig::new(
            "other",
            "csv",
            "id",
            true,
            Some(QuarterlyAverageConfig::new("missing", "value", "average", "%Y-%m-%d")),
        ),
    );
    let all = AllDatasets::new(
        good.clone(),
        good.clone(),
        no_column,
        good.clone(),
        no_how,
        good.clone(),
        good.clone(),
        good.clone(),
    );
    assert_eq!(normalize_data(all).unwrap_err().kind(), Failure::Format);
}

#[test]
fn conversion_needs_the_rates() {
    let config = DatasetConfig::new("dummy_name", "dummy_source", "dummy_identifier", false, None);
    let datasets = vec![DatasetWithConfig::new(
        "us_gdp",
        create_df("us_gdp", vec!["2023-Q1"], vec![1.0]),
        config,
    )];
    assert_eq!(convert_eu_to_usd(datasets).unwrap_err().kind(), Failure::Join);
}

#[test]
fn conversion_at_a_rate() {
    let config = DatasetConfig::new("dummy_name", "dummy_source", "dummy_identifier", false, None);
    let datasets = vec![
        DatasetWithConfig::new("fx_rates", create_fx_df(vec!["2023-Q1"], vec![1.1]), config),
        DatasetWithConfig::new(
            "eu_gdp",
            create_df("eu_gdp", vec!["2023-Q1", "2023-Q2"], vec![100.0, 7.0]),
            config,
        ),
    ];
    let result = convert_eu_to_usd(datasets).unwrap();
    let converted = &result[1].dataframe;
    assert_eq!(
        text_cells(converted, "quarter"),
        vec![Some("2023-Q1".to_string()), Some("2023-Q2".to_string())]
    );
    let cells = number_cells(converted, "eu_gdp_converted");
    assert!((cells[0].unwrap() - 110.0).abs() < 1e-6);
    // a quarter without a rate keeps its row and has no value
    assert_eq!(cells[1], None);
}

#[test]
fn conversion_fails_on_a_table_without_its_metric() {
    let config = DatasetConfig::new("dummy_name", "dummy_source", "dummy_identifier", false, None);
    let datasets = vec![
        DatasetWithConfig::new("fx_rates", create_fx_df(vec!["2023-Q1"], vec![1.1]), config),
        DatasetWithConfig::new("eu_gdp", create_df("value", vec!["2023-Q1"], vec![100.0]), config),
    ];
    assert_eq!(convert_eu_to_usd(datasets).unwrap_err().kind(), Failure::Format);
}

#[test]
fn join_keeps_the_quarters_that_all_have() {
    let config = DatasetConfig::new("dummy_name", "dummy_source", "dummy_identifier", false, None);
    let a = create_df("a", vec!["2023-Q1", "2023-Q2"], vec![1.0, 2.0]);
    let b = create_df("b", vec!["2023-Q1"], vec![3.0]);
    let joined = join_all_datasets(vec![
        DatasetWithConfig::new("a", a, config),
        DatasetWithConfig::new("b", b, config),
    ])
    .unwrap();
    assert_eq!(joined.height(), 1);
    assert_eq!(text_cells(&joined, "quarter"), vec![Some("2023-Q1".to_string())]);
    // the last table comes first, then the others in order
    assert_eq!(
        joined.column_names(),
        vec!["quarter".to_string(), "b".to_string(), "a".to_string()]
    );
    assert_eq!(number_cells(&joined, "a"), vec![Some(1.0)]);
    assert_eq!(number_cells(&joined, "b"), vec![Some(3.0)]);
}

#[test]
fn join_drops_rows_with_an_empty_cell() {
    let config = DatasetConfig::new("dummy_name", "dummy_source", "dummy_identifier", false, None);
    let a = Table::new(vec![
        texts("quarter", &["2023-Q1", "2023-Q2"]),
        Column::number("a", vec![None, Some(Amount::Reading("2".to_string()))]),
    ])
    .unwrap();
    let b = create_df("b", vec!["2023-Q1", "2023-Q2"], vec![3.0, 4.0]);
    let joined = join_all_datasets(vec![
        DatasetWithConfig::new("a", a, config),
        DatasetWithConfig::new("b", b, config),
    ])
    .unwrap();
    assert_eq!(text_cells(&joined, "quarter"), vec![Some("2023-Q2".to_string())]);
}

#[test]
fn join_of_nothing_fails() {
    assert_eq!(
        join_all_datasets(vec![]).unwrap_err(),
        PipelineError::Join { reason: "there is no dataset to join".to_string() }
    );
}

#[test]
fn join_without_a_common_quarter_fails() {
    let config = DatasetConfig::new("dummy_name", "dummy_source", "dummy_identifier", false, None);
    let a = create_df("a", vec!["2023-Q1", "2023-Q2"], vec![1.0, 2.0]);
    let b = create_df("b", vec!["2023-Q3"], vec![3.0]);
    let joined = join_all_datasets(vec![
        DatasetWithConfig::new("a", a, config),
        DatasetWithConfig::new("b", b, config),
    ]);
    assert_eq!(
        joined.unwrap_err(),
        PipelineError::Join { reason: "no quarter is common to all datasets".to_string() }
    );
    // one table alone, left without a row, has nothing in common either
    let only = Table::new(vec![
        texts("quarter", &["2023-Q1"]),
        Column::number("a", vec![None]),
    ])
    .unwrap();
    let joined = join_all_datasets(vec![DatasetWithConfig::new("a", only, config)]);
    assert_eq!(
        joined.unwrap_err(),
        PipelineError::Join { reason: "no quarter is common to all datasets".to_string() }
    );
}

#[test]
fn failures_of_the_transforms_say_what_is_wrong() {
    let table = || mock_dataframe(None);
    assert_eq!(
        process_quarterly_average("date", "value", "a", "%Y-%m-%", table()).unwrap_err(),
        PipelineError::Parse { field: "date".to_string(), raw_value: "%Y-%m-%".to_string() }
    );
    assert_eq!(
        process_quarterly_average("date", "value", "a", "%Y-%m-%d %H", table()).unwrap_err(),
        PipelineError::Parse { field: "date".to_string(), raw_value: "%Y-%m-%d %H".to_string() }
    );
    assert_eq!(
        process_quarterly_average("missing", "quarter", "quarter", "%", table()).unwrap_err(),
        PipelineError::Format { description: "the date column is no text column".to_string() }
    );
    assert_eq!(
        process_quarterly_average("date", "quarter", "quarter", "%Y", table()).unwrap_err(),
        PipelineError::Format {
            description: "the target column is the quarter column".to_string()
        }
    );
    assert_eq!(
        process_quarterly_average("date", "missing", "quarter", "%Y", table()).unwrap_err(),
        PipelineError::Format {
            description: "the alias is the name of the quarter column".to_string()
        }
    );
    assert_eq!(
        process_quarterly_average("date", "missing", "a", "%Y", table()).unwrap_err(),
        PipelineError::Format {
            description: "the target column is no column of amounts".to_string()
        }
    );
    let config = DatasetConfig::new("broken", "csv", "id", true, None);
    assert_eq!(
        normalize_dataset(DatasetWithConfig::new("broken", table(), config)).unwrap_err(),
        PipelineError::Config { missing_key: "quarterly_average_config".to_string() }
    );
    let config = DatasetConfig::new("us_gdp", "fred", "id", false, None);
    assert_eq!(
        convert_eu_to_usd(vec![DatasetWithConfig::new("us_gdp", table(), config)]).unwrap_err(),
        PipelineError::Join { reason: "no dataset holds the exchange rate".to_string() }
    );
}

#[test]
fn join_fails_on_a_table_without_quarters() {
    let config = DatasetConfig::new("dummy_name", "dummy_source", "dummy_identifier", false, None);
    let a = create_df("a", vec!["2023-Q1"], vec![1.0]);
    let b = Table::new(vec![numbers("b", &[3.0])]).unwrap();
    let result = join_all_datasets(vec![
        DatasetWithConfig::new("b", b, config),
        DatasetWithConfig::new("a", a, config),
    ]);
    assert_eq!(result.unwrap_err().kind(), Failure::Join);
}

#[test]
fn renaming_fails_on_a_table_of_another_width() {
    let config = DatasetConfig::new("fx_rates", "csv", "id", false, None);
    let table = Table::new(vec![texts("quarter", &["2023-Q1"])]).unwrap();
    let result = rename_columns(vec![DatasetWithConfig::new("fx_rates", table, config)]);
    assert_eq!(result.unwrap_err().kind(), Failure::Format);
}
