//! What each chart shows: two metrics of the two regions against the equity
//! index, on the quarters.

use vstd::prelude::*;

verus! {

/// One chart: its three columns with their labels, its file and its caption.
#[derive(Clone, Copy)]
pub struct GraphConfiguration {
    pub col_name_1: &'static str,
    pub col_name_1_label: &'static str,
    pub col_name_2: &'static str,
    pub col_name_2_label: &'static str,
    pub col_name_sp500: &'static str,
    pub col_name_sp500_label: &'static str,
    pub file_name: &'static str,
    pub caption: &'static str,
}

impl GraphConfiguration {
    /// The chart with the given columns, labels, file and caption.
    pub fn new(
        col_name_1: &'static str,
        col_name_1_label: &'static str,
        col_name_2: &'static str,
        col_name_2_label: &'static str,
        col_name_sp500: &'static str,
        col_name_sp500_label: &'static str,
        file_name: &'static str,
        caption: &'static str,
    ) -> (configuration: Self)
        ensures
            configuration == (GraphConfiguration {
                col_name_1,
                col_name_1_label,
                col_name_2,
                col_name_2_label,
                col_name_sp500,
                col_name_sp500_label,
                file_name,
                caption,
            }),
    {
        GraphConfiguration {
            col_name_1,
            col_name_1_label,
            col_name_2,
            col_name_2_label,
            col_name_sp500,
            col_name_sp500_label,
            file_name,
            caption,
        }
    }
}

/// The three charts: inflation, gross domestic product and debt.
pub open spec fn charts() -> Seq<GraphConfiguration> {
    seq![
        GraphConfiguration {
            col_name_1: "eu_inflation_perc",
            col_name_1_label: "EU Inflation in %",
            col_name_2: "us_inflation_perc",
            col_name_2_label: "US Inflation in %",
            col_name_sp500: "sp500_usd_in_thousands",
            col_name_sp500_label: "S&P 500 in thousands",
            file_name: "inflation",
            caption: "Inflation comparison EU vs USA",
        },
        GraphConfiguration {
            col_name_1: "eu_gdp_usd_billions",
            col_name_1_label: "EU GDP in billions USD",
            col_name_2: "us_gdp_usd_billions",
            col_name_2_label: "US GDP in billions USD",
            col_name_sp500: "sp500_usd",
            col_name_sp500_label: "S&P 500 in thousands",
            file_name: "gdp",
            caption: "GDP comparison EU vs USA",
        },
        GraphConfiguration {
            col_name_1: "eu_government_debt_usd_millions",
            col_name_1_label: "EU Government debt in millions USD",
            col_name_2: "us_total_debt_usd_millions",
            col_name_2_label: "US Debt in millions USD",
            col_name_sp500: "sp500_usd_mult_by_ten_thousand",
            col_name_sp500_label: "S&P 500 multiplied by 10'000",
            file_name: "debt",
            caption: "Debt comparison EU vs USA",
        },
    ]
}

/// The three charts that are drawn from the wide table.
pub fn graph_configurations() -> (configurations: Vec<GraphConfiguration>)
    ensures
        configurations@ == charts(),
{
    let mut configurations: Vec<GraphConfiguration> = Vec::new();
    configurations.push(
        GraphConfiguration::new(
            "eu_inflation_perc",
            "EU Inflation in %",
            "us_inflation_perc",
            "US Inflation in %",
            "sp500_usd_in_thousands",
            "S&P 500 in thousands",
            "inflation",
            "Inflation comparison EU vs USA",
        ),
    );
    configurations.push(
        GraphConfiguration::new(
            "eu_gdp_usd_billions",
            "EU GDP in billions USD",
            "us_gdp_usd_billions",
            "US GDP in billions USD",
            "sp500_usd",
            "S&P 500 in thousands",
            "gdp",
            "GDP comparison EU vs USA",
        ),
    );
    configurations.push(
        GraphConfiguration::new(
            "eu_government_debt_usd_millions",
            "EU Government debt in millions USD",
            "us_total_debt_usd_millions",
            "US Debt in millions USD",
            "sp500_usd_mult_by_ten_thousand",
            "S&P 500 multiplied by 10'000",
            "debt",
            "Debt comparison EU vs USA",
        ),
    );
    assert(configurations@ =~= charts());
    configurations
}

} // verus!
