//! The transforms in a row: from the fetched datasets to the wide table
//! under its final names.

use vstd::prelude::*;
use crate::error::Fault;
use crate::error::PipelineError;
use crate::frame::column::ColumnView;
use crate::frame::table::Table;
use crate::loader::loader_manager::final_names;
use crate::loader::loader_manager::renamed_through;
use crate::loader::loader_manager::set_final_column_names;
use crate::model::data_model::AllDatasets;
use crate::model::data_model::DatasetView;
use crate::model::data_model::DatasetWithConfig;
use crate::transformer::normalize::all_converted;
use crate::transformer::normalize::all_joined;
use crate::transformer::normalize::convert_eu_to_usd;
use crate::transformer::normalize::each_normalized;
use crate::transformer::normalize::each_renamed;
use crate::transformer::normalize::gathered;
use crate::transformer::normalize::join_all_datasets;
use crate::transformer::normalize::normalize_data;
use crate::transformer::normalize::outcome;
use crate::transformer::normalize::rename_columns;

verus! {

/// What `transform` returns: the normalized datasets renamed, converted and
/// joined, and the wide table given its final names; or the first failure on
/// the way.
pub open spec fn transformed(datasets: Seq<DatasetView>) -> Result<Seq<ColumnView>, Fault> {
    match gathered(each_renamed(datasets), datasets.len()) {
        Err(fault) => Err(fault),
        Ok(renamed) => match all_converted(renamed) {
            Err(fault) => Err(fault),
            Ok(converted) => match all_joined(converted) {
                Err(fault) => Err(fault),
                Ok(wide) => renamed_through(wide, final_names(), 7),
            },
        },
    }
}

/// Turns the normalized datasets into the wide table: renames their
/// columns, converts the amounts in euro, joins all on the quarter and gives
/// the columns their final names.
pub fn transform(normalized: Vec<DatasetWithConfig>) -> (result: Result<Table, PipelineError>)
    ensures
        outcome(result) == transformed(normalized.deep_view()),
{
    let renamed = match rename_columns(normalized) {
        Ok(renamed) => renamed,
        Err(error) => {
            return Err(error);
        },
    };
    let converted = match convert_eu_to_usd(renamed) {
        Ok(converted) => converted,
        Err(error) => {
            return Err(error);
        },
    };
    let wide = match join_all_datasets(converted) {
        Ok(wide) => wide,
        Err(error) => {
            return Err(error);
        },
    };
    set_final_column_names(wide)
}

/// What `run` returns: the wide table of the normalized datasets, or the
/// first failure on the way.
pub open spec fn wide_table(all_datasets: AllDatasets) -> Result<Seq<ColumnView>, Fault> {
    match gathered(each_normalized(all_datasets.in_order()), 8) {
        Err(fault) => Err(fault),
        Ok(normalized) => transformed(normalized),
    }
}

/// Turns the fetched datasets into the wide table: normalizes each to
/// quarters, then renames, converts, joins and gives the final names.
pub fn run(all_datasets: AllDatasets) -> (result: Result<Table, PipelineError>)
    ensures
        outcome(result) == wide_table(all_datasets),
{
    match normalize_data(all_datasets) {
        Ok(normalized) => transform(normalized),
        Err(error) => Err(error),
    }
}

} // verus!
