use quarterly_etl::error::Failure;
use quarterly_etl::frame::amount::Amount;
use quarterly_etl::frame::column::Column;
use quarterly_etl::frame::table::Table;
use quarterly_etl::loader::graph::graph_configurations;
use quarterly_etl::loader::graph::GraphConfiguration;
use quarterly_etl::loader::loader_manager::final_renamings;
use quarterly_etl::loader::loader_manager::set_final_column_names;

fn wide(names: &[&str]) -> Table {
    let mut columns = vec![Column::text("quarter", vec![Some("2023-Q1".to_string())])];
    for name in names {
        columns.push(Column::number(name, vec![Some(Amount::Reading("1".to_string()))]));
    }
    Table::new(columns).unwrap()
}

#[test]
fn the_wide_table_gets_its_final_names() {
    let table = wide(&[
        "eu_gdp_converted",
        "eur_to_usd",
        "sp500_usd",
        "us_gdp_usd",
        "us_total_debt_usd",
        "us_inflation_usd",
        "eu_inflation",
        "eu_government_debt_converted",
    ]);
    let renamed = set_final_column_names(table).unwrap();
    assert_eq!(
        renamed.column_names(),
        vec![
            "quarter",
            "eu_gdp_usd_millions",
            "fx_rate_eur_to_usd",
            "sp500_usd",
            "us_gdp_usd_billions",
            "us_total_debt_usd_millions",
            "us_inflation_perc",
            "eu_inflation_perc",
            "eu_government_debt_usd_millions",
        ]
    );
    assert_eq!(renamed.height(), 1);
}

#[test]
fn a_missing_column_is_a_failure_of_the_format() {
    let table = wide(&["eur_to_usd", "sp500_usd"]);
    assert_eq!(set_final_column_names(table).unwrap_err().kind(), Failure::Format);
    assert_eq!(final_renamings().len(), 7);
    assert_eq!(final_renamings()[0].old, "eur_to_usd");
    assert_eq!(final_renamings()[6].new, "eu_gdp_usd_millions");
}

#[test]
fn three_charts_are_drawn() {
    let charts = graph_configurations();
    let files: Vec<&str> = charts.iter().map(|c| c.file_name).collect();
    assert_eq!(files, vec!["inflation", "gdp", "debt"]);
    assert_eq!(charts[0].col_name_1, "eu_inflation_perc");
    assert_eq!(charts[1].col_name_sp500, "sp500_usd");
    assert_eq!(charts[2].caption, "Debt comparison EU vs USA");
    let one = GraphConfiguration::new("a", "b", "c", "d", "e", "f", "g", "h");
    assert_eq!(
        (one.col_name_1, one.col_name_1_label, one.col_name_2, one.col_name_2_label),
        ("a", "b", "c", "d")
    );
    assert_eq!((one.col_name_sp500, one.col_name_sp500_label, one.file_name, one.caption), ("e", "f", "g", "h"));
}
