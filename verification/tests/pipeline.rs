use quarterly_etl::datasets_config::datasets_config::get_all_datasets_configs;
use quarterly_etl::extractor::ecb::table_from_response as xml_table;
use quarterly_etl::extractor::extractor_manager::assemble_datasets;
use quarterly_etl::extractor::extractor_manager::retrieve_dataset;
use quarterly_etl::extractor::fred::observations_table;
use quarterly_etl::extractor::fred::Observation;
use quarterly_etl::frame::amount::Amount;
use quarterly_etl::frame::column::Cells;
use quarterly_etl::frame::column::Column;
use quarterly_etl::frame::table::Table;
use quarterly_etl::loader::loader_manager::set_final_column_names;
use quarterly_etl::model::data_model::AllDatasets;
use quarterly_etl::pipeline::run;
use quarterly_etl::pipeline::transform;
use quarterly_etl::transformer::normalize::convert_eu_to_usd;
use quarterly_etl::transformer::normalize::join_all_datasets;
use quarterly_etl::transformer::normalize::normalize_data;
use quarterly_etl::transformer::normalize::rename_columns;

fn value_of(amount: &Amount) -> f64 {
    match amount {
        Amount::Reading(text) => text.parse::<f64>().unwrap(),
        Amount::Mean(members) => {
            members.iter().map(value_of).sum::<f64>() / (members.len() as f64)
        }
        Amount::Product(left, right) => value_of(left) * value_of(right),
    }
}

fn series(values: &[(&str, &str)]) -> Table {
    let observations: Vec<Observation> = values
        .iter()
        .map(|(date, value)| Observation { date: date.to_string(), value: value.to_string() })
        .collect();
    observations_table(&observations).unwrap()
}

fn quarterly(values: &[(&str, &str)]) -> Table {
    let mut body = String::from("<message:GenericData>");
    for (period, value) in values {
        body.push_str(&format!(
            "<generic:Obs><generic:ObsDimension value=\"{}\"/><generic:ObsValue value=\"{}\"/></generic:Obs>",
            period, value
        ));
    }
    body.push_str("</message:GenericData>");
    xml_table(200, "http://localhost", &body).unwrap()
}

fn rates() -> Table {
    Table::new(vec![
        Column::text(
            "observation_date",
            vec![
                Some("2023-01-02".to_string()),
                Some("2023-03-31".to_string()),
                Some("2023-04-03".to_string()),
                Some("2023-07-03".to_string()),
            ],
        ),
        Column::number(
            "DEXUSEU",
            vec![
                Some(Amount::Reading("1.0".to_string())),
                Some(Amount::Reading("1.2".to_string())),
                Some(Amount::Reading("1.5".to_string())),
                None,
            ],
        ),
    ])
    .unwrap()
}

fn fetched_datasets() -> AllDatasets {
    let tables = vec![
        rates(),
        series(&[("2023-01-10", "4000"), ("2023-04-10", "4100"), ("2023-07-10", "4200")]),
        series(&[("2023-01-01", "26000"), ("2023-04-01", "27000"), ("2023-07-01", "27500")]),
        series(&[("2023-01-01", "31000000"), ("2023-04-01", "32000000")]),
        series(&[("2023-01-01", "5"), ("2023-02-01", "6"), ("2023-04-01", "4"), ("2023-07-01", "3")]),
        quarterly(&[("2023-Q1", "12000000"), ("2023-Q2", "12500000"), ("2023-Q3", "13000000")]),
        quarterly(&[("2023-Q1", "3000000"), ("2023-Q2", "3100000"), ("2022-Q4", "2900000")]),
        quarterly(&[("2023-01", "8"), ("2023-03", "6"), ("2023-05", "5")]),
    ];
    let fetched = get_all_datasets_configs()
        .into_iter()
        .zip(tables)
        .map(|(config, table)| retrieve_dataset(config, table))
        .collect();
    assemble_datasets(fetched).unwrap()
}

#[test]
fn the_stages_in_a_row_are_the_pipeline() {
    let wide = run(fetched_datasets()).unwrap();
    let normalized = normalize_data(fetched_datasets()).unwrap();
    assert_eq!(transform(normalized).unwrap(), wide);
    let normalized = normalize_data(fetched_datasets()).unwrap();
    let joined =
        join_all_datasets(convert_eu_to_usd(rename_columns(normalized).unwrap()).unwrap()).unwrap();
    assert_eq!(set_final_column_names(joined).unwrap(), wide);
}

#[test]
fn the_pipeline_gives_the_wide_table() {
    let all = fetched_datasets();
    let normalized = normalize_data(all).unwrap();
    let renamed = rename_columns(normalized).unwrap();
    let converted = convert_eu_to_usd(renamed).unwrap();
    let joined = join_all_datasets(converted).unwrap();
    let wide = set_final_column_names(joined).unwrap();

    assert_eq!(
        wide.column_names(),
        vec![
            "quarter",
            "eu_gdp_usd_millions",
            "fx_rate_eur_to_usd",
            "sp500_usd",
            "us_gdp_usd_billions",
            "us_total_debt_usd_millions",
            "us_inflation_perc",
            "eu_inflation_perc",
            "eu_government_debt_usd_millions",
        ]
    );

    let mut rows: Vec<(String, Vec<f64>)> = (0..wide.height())
        .map(|row| {
            let mut quarter = String::new();
            let mut numbers = Vec::new();
            for column in wide.columns() {
                match &column.cells {
                    Cells::Text(cells) => quarter = cells[row].clone().unwrap(),
                    Cells::Number(cells) => numbers.push(value_of(cells[row].as_ref().unwrap())),
                }
            }
            (quarter, numbers)
        })
        .collect();
    rows.sort_by(|a, b| a.0.cmp(&b.0));

    // the third quarter has no rate, and the debt of the United States has no third quarter
    let quarters: Vec<&str> = rows.iter().map(|r| r.0.as_str()).collect();
    assert_eq!(quarters, vec!["2023-Q1", "2023-Q2"]);
    let expected = vec![
        vec![3000000.0 * 1.1, 1.1, 4000.0, 26000.0, 31000000.0, 5.5, 7.0, 12000000.0 * 1.1],
        vec![3100000.0 * 1.5, 1.5, 4100.0, 27000.0, 32000000.0, 4.0, 5.0, 12500000.0 * 1.5],
    ];
    for (row, wanted) in rows.iter().zip(expected.iter()) {
        assert_eq!(row.1.len(), wanted.len());
        for (got, want) in row.1.iter().zip(wanted.iter()) {
            assert!((got - want).abs() < 1e-6, "{} is not {}", got, want);
        }
    }
}
