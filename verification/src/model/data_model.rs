//! A dataset with its table and its place in the registry, and the eight
//! datasets of a run.

use vstd::prelude::*;
use crate::datasets_config::datasets_config::DatasetConfig;
use crate::frame::column::ColumnView;
use crate::frame::table::Table;

verus! {

/// A table with the name and the registry entry of its dataset.
#[derive(Debug)]
pub struct DatasetWithConfig {
    pub name: &'static str,
    pub dataframe: Table,
    pub dataset_config: DatasetConfig,
}

/// What a `DatasetWithConfig` stands for in contracts.
pub struct DatasetView {
    pub name: Seq<char>,
    pub table: Seq<ColumnView>,
    pub config: DatasetConfig,
}

impl View for DatasetWithConfig {
    type V = DatasetView;

    open spec fn view(&self) -> DatasetView {
        DatasetView { name: self.name@, table: self.dataframe@, config: self.dataset_config }
    }
}

impl DeepView for DatasetWithConfig {
    type V = DatasetView;

    open spec fn deep_view(&self) -> DatasetView {
        self@
    }
}

impl DatasetWithConfig {
    /// The dataset of the given name, table and registry entry.
    pub fn new(name: &'static str, dataframe: Table, dataset_config: DatasetConfig) -> (dataset:
        Self)
        ensures
            dataset.name == name,
            dataset.dataframe == dataframe,
            dataset.dataset_config == dataset_config,
    {
        DatasetWithConfig { name, dataframe, dataset_config }
    }
}

impl Clone for DatasetWithConfig {
    fn clone(&self) -> (copy: Self)
        ensures
            copy@ == self@,
            copy.name == self.name,
    {
        DatasetWithConfig {
            name: self.name,
            dataframe: self.dataframe.clone(),
            dataset_config: self.dataset_config,
        }
    }
}

/// The eight datasets of a run, each in its own place.
#[derive(Debug)]
pub struct AllDatasets {
    pub fx_rates_df: DatasetWithConfig,
    pub fred_sp500_df: DatasetWithConfig,
    pub fred_us_gdp_df: DatasetWithConfig,
    pub fred_us_total_public_debt_df: DatasetWithConfig,
    pub fred_us_inflation_df: DatasetWithConfig,
    pub ecb_government_debt_df: DatasetWithConfig,
    pub ecb_gdp_df: DatasetWithConfig,
    pub ecb_inflation_df: DatasetWithConfig,
}

impl AllDatasets {
    /// The datasets in the order of the registry.
    pub open spec fn in_order(self) -> Seq<DatasetWithConfig> {
        seq![
            self.fx_rates_df,
            self.fred_sp500_df,
            self.fred_us_gdp_df,
            self.fred_us_total_public_debt_df,
            self.fred_us_inflation_df,
            self.ecb_government_debt_df,
            self.ecb_gdp_df,
            self.ecb_inflation_df,
        ]
    }

    /// What the datasets stand for in contracts, in the order of the
    /// registry.
    pub open spec fn views(self) -> Seq<DatasetView> {
        Seq::new(8, |i: int| self.in_order()[i]@)
    }

    /// The datasets in the order of the registry.
    pub fn items(self) -> (items: Vec<DatasetWithConfig>)
        ensures
            items@ == self.in_order(),
    {
        let mut items: Vec<DatasetWithConfig> = Vec::new();
        items.push(self.fx_rates_df);
        items.push(self.fred_sp500_df);
        items.push(self.fred_us_gdp_df);
        items.push(self.fred_us_total_public_debt_df);
        items.push(self.fred_us_inflation_df);
        items.push(self.ecb_government_debt_df);
        items.push(self.ecb_gdp_df);
        items.push(self.ecb_inflation_df);
        assert(items@ =~= self.in_order());
        items
    }

    /// The eight datasets, each in the place that is named for it.
    pub fn new(
        fx_rates_df: DatasetWithConfig,
        fred_sp500_df: DatasetWithConfig,
        fred_us_gdp_df: DatasetWithConfig,
        fred_us_total_public_debt_df: DatasetWithConfig,
        fred_us_inflation_df: DatasetWithConfig,
        ecb_government_debt_df: DatasetWithConfig,
        ecb_gdp_df: DatasetWithConfig,
        ecb_inflation_df: DatasetWithConfig,
    ) -> (all: Self)
        ensures
            all.in_order() == seq![
                fx_rates_df,
                fred_sp500_df,
                fred_us_gdp_df,
                fred_us_total_public_debt_df,
                fred_us_inflation_df,
                ecb_government_debt_df,
                ecb_gdp_df,
                ecb_inflation_df,
            ],
    {
        AllDatasets {
            fx_rates_df,
            fred_sp500_df,
            fred_us_gdp_df,
            fred_us_total_public_debt_df,
            fred_us_inflation_df,
            ecb_government_debt_df,
            ecb_gdp_df,
            ecb_inflation_df,
        }
    }
}

} // verus!
