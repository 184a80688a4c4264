//! The registry: the eight datasets of the pipeline, each with its source and
//! with the way its rows are bucketed into quarters.

use vstd::prelude::*;

verus! {

/// How the rows of one dataset are bucketed into quarters and averaged.
#[derive(Clone, Copy, Debug)]
pub struct QuarterlyAverageConfig {
    pub date_column_name: &'static str,
    pub target_column_name: &'static str,
    pub target_column_alias: &'static str,
    pub date_format_mask: &'static str,
}

impl QuarterlyAverageConfig {
    /// The way to average a dataset that has the given columns and mask.
    pub fn new(
        date_column_name: &'static str,
        target_column_name: &'static str,
        target_column_alias: &'static str,
        date_format_mask: &'static str,
    ) -> (config: Self)
        ensures
            config == (QuarterlyAverageConfig {
                date_column_name,
                target_column_name,
                target_column_alias,
                date_format_mask,
            }),
    {
        QuarterlyAverageConfig {
            date_column_name,
            target_column_name,
            target_column_alias,
            date_format_mask,
        }
    }
}

/// One dataset: its name, where it comes from and how it is normalized.
#[derive(Clone, Copy, Debug)]
pub struct DatasetConfig {
    pub name: &'static str,
    pub source: &'static str,
    pub identifier: &'static str,
    pub quarterly_avg_required: bool,
    pub quarterly_average_config: Option<QuarterlyAverageConfig>,
}

impl DatasetConfig {
    /// The registry entry with the given fields.
    pub fn new(
        name: &'static str,
        source: &'static str,
        identifier: &'static str,
        quarterly_avg_required: bool,
        quarterly_average_config: Option<QuarterlyAverageConfig>,
    ) -> (config: Self)
        ensures
            config == (DatasetConfig {
                name,
                source,
                identifier,
                quarterly_avg_required,
                quarterly_average_config,
            }),
    {
        DatasetConfig { name, source, identifier, quarterly_avg_required, quarterly_average_config }
    }
}

/// A dataset that is averaged per quarter.
pub open spec fn averaged(
    name: &'static str,
    source: &'static str,
    identifier: &'static str,
    date_column_name: &'static str,
    target_column_name: &'static str,
    target_column_alias: &'static str,
    date_format_mask: &'static str,
) -> DatasetConfig {
    DatasetConfig {
        name,
        source,
        identifier,
        quarterly_avg_required: true,
        quarterly_average_config: Some(
            QuarterlyAverageConfig {
                date_column_name,
                target_column_name,
                target_column_alias,
                date_format_mask,
            },
        ),
    }
}

/// A dataset that its source already delivers per quarter.
pub open spec fn quarterly(
    name: &'static str,
    source: &'static str,
    identifier: &'static str,
) -> DatasetConfig {
    DatasetConfig {
        name,
        source,
        identifier,
        quarterly_avg_required: false,
        quarterly_average_config: None,
    }
}

/// The eight datasets, in the order in which the pipeline addresses them.
pub open spec fn registry() -> Seq<DatasetConfig> {
    seq![
        averaged(
            "fx_rates",
            "csv",
            "csv_data/DEXUSEU.csv",
            "observation_date",
            "DEXUSEU",
            "avg_fx_rate",
            "%Y-%m-%d",
        ),
        averaged("sp500", "fred", "SP500", "date", "value", "sp500_usd", "%Y-%m-%d"),
        averaged("us_gdp", "fred", "GDP", "date", "value", "us_gdp_usd", "%Y-%m-%d"),
        averaged(
            "us_total_public_debt",
            "fred",
            "GFDEBTN",
            "date",
            "value",
            "us_total_debt_usd",
            "%Y-%m-%d",
        ),
        averaged(
            "us_inflation",
            "fred",
            "CORESTICKM159SFRBATL",
            "date",
            "value",
            "us_inflation_usd",
            "%Y-%m-%d",
        ),
        quarterly(
            "eu_government_debt",
            "ecb",
            "GFS/Q.N.I9.W0.S13.S1.C.L.LE.GD.T._Z.XDC._T.F.V.N._T",
        ),
        quarterly("eu_gdp", "ecb", "MNA/Q.Y.I9.W2.S1.S1.B.B1GQ._Z._Z._Z.EUR.LR.N"),
        averaged(
            "eu_inflation",
            "ecb",
            "ICP/M.U2.N.XEF000.4.ANR",
            "quarter",
            "value",
            "value",
            "%Y-%m",
        ),
    ]
}

/// The eight datasets, in the order in which the pipeline addresses them.
pub fn get_all_datasets_configs() -> (configs: Vec<DatasetConfig>)
    ensures
        configs@ == registry(),
{
    let mut configs: Vec<DatasetConfig> = Vec::new();
    configs.push(
        DatasetConfig::new(
            "fx_rates",
            "csv",
            "csv_data/DEXUSEU.csv",
            true,
            Some(
                QuarterlyAverageConfig::new(
                    "observation_date",
                    "DEXUSEU",
                    "avg_fx_rate",
                    "%Y-%m-%d",
                ),
            ),
        ),
    );
    configs.push(
        DatasetConfig::new(
            "sp500",
            "fred",
            "SP500",
            true,
            Some(QuarterlyAverageConfig::new("date", "value", "sp500_usd", "%Y-%m-%d")),
        ),
    );
    configs.push(
        DatasetConfig::new(
            "us_gdp",
            "fred",
            "GDP",
            true,
            Some(QuarterlyAverageConfig::new("date", "value", "us_gdp_usd", "%Y-%m-%d")),
        ),
    );
    configs.push(
        DatasetConfig::new(
            "us_total_public_debt",
            "fred",
            "GFDEBTN",
            true,
            Some(QuarterlyAverageConfig::new("date", "value", "us_total_debt_usd", "%Y-%m-%d")),
        ),
    );
    configs.push(
        DatasetConfig::new(
            "us_inflation",
            "fred",
            "CORESTICKM159SFRBATL",
            true,
            Some(QuarterlyAverageConfig::new("date", "value", "us_inflation_usd", "%Y-%m-%d")),
        ),
    );
    configs.push(
        DatasetConfig::new(
            "eu_government_debt",
            "ecb",
            "GFS/Q.N.I9.W0.S13.S1.C.L.LE.GD.T._Z.XDC._T.F.V.N._T",
            false,
            None,
        ),
    );
    configs.push(
        DatasetConfig::new(
            "eu_gdp",
            "ecb",
            "MNA/Q.Y.I9.W2.S1.S1.B.B1GQ._Z._Z._Z.EUR.LR.N",
            false,
            None,
        ),
    );
    configs.push(
        DatasetConfig::new(
            "eu_inflation",
            "ecb",
            "ICP/M.U2.N.XEF000.4.ANR",
            true,
            Some(QuarterlyAverageConfig::new("quarter", "value", "value", "%Y-%m")),
        ),
    );
    assert(configs@ =~= registry());
    configs
}

/// The registry holds eight datasets, no two under one name, and each one
/// that is averaged per quarter says how.
pub proof fn registry_is_consistent()
    ensures
        registry().len() == 8,
        forall|i: int, j: int|
            0 <= i < j < registry().len() ==> registry()[i].name@ != registry()[j].name@,
        forall|i: int|
            0 <= i < registry().len() ==> (#[trigger] registry()[i]).quarterly_avg_required
                == registry()[i].quarterly_average_config.is_some(),
{
    reveal_strlit("fx_rates");
    reveal_strlit("sp500");
    reveal_strlit("us_gdp");
    reveal_strlit("us_total_public_debt");
    reveal_strlit("us_inflation");
    reveal_strlit("eu_government_debt");
    reveal_strlit("eu_gdp");
    reveal_strlit("eu_inflation");
    let r = registry();
    assert(r[0].name@.len() == 8 && r[0].name@[0] == 'f');
    assert(r[1].name@.len() == 5);
    assert(r[2].name@.len() == 6 && r[2].name@[0] == 'u');
    assert(r[3].name@.len() == 20);
    assert(r[4].name@.len() == 12 && r[4].name@[1] == 's');
    assert(r[5].name@.len() == 18);
    assert(r[6].name@.len() == 6 && r[6].name@[0] == 'e');
    assert(r[7].name@.len() == 12 && r[7].name@[1] == 'u');
}

} // verus!
