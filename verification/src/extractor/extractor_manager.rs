//! What the fetching of the datasets has to decide: which source a dataset
//! is asked from, whether a reply is a success, and how the fetched datasets
//! take their places.

use vstd::prelude::*;
use crate::datasets_config::datasets_config::DatasetConfig;
use crate::error::PipelineError;
use crate::model::data_model::AllDatasets;
use crate::model::data_model::DatasetView;
use crate::model::data_model::DatasetWithConfig;
use crate::text::same_text;

verus! {

/// The kinds of source.
#[derive(Clone, Copy, PartialEq, Eq, Structural, Debug)]
pub enum SourceKind {
    /// A local delimited file.
    File,
    /// The JSON interface of the statistics service.
    JsonApi,
    /// The XML interface of the data service.
    XmlApi,
}

/// The kind of source that a registry entry names: `csv`, `fred` or `ecb`.
pub open spec fn kind_of(source: Seq<char>) -> Option<SourceKind> {
    if source == "csv"@ {
        Some(SourceKind::File)
    } else if source == "fred"@ {
        Some(SourceKind::JsonApi)
    } else if source == "ecb"@ {
        Some(SourceKind::XmlApi)
    } else {
        None
    }
}

/// The kind of source that a registry entry names.
pub fn source_kind(source: &str) -> (kind: Option<SourceKind>)
    ensures
        kind == kind_of(source@),
{
    if same_text(source, "csv") {
        Some(SourceKind::File)
    } else if same_text(source, "fred") {
        Some(SourceKind::JsonApi)
    } else if same_text(source, "ecb") {
        Some(SourceKind::XmlApi)
    } else {
        None
    }
}

/// What is to be fetched for a dataset.
#[derive(Debug)]
pub struct FetchRequest {
    pub kind: SourceKind,
    pub identifier: &'static str,
}

/// What is to be fetched for a dataset: from the source of its kind, under
/// its identifier. A source of no known kind is a failure of configuration.
pub fn fetch_request(dataset_config: &DatasetConfig) -> (result: Result<
    FetchRequest,
    PipelineError,
>)
    ensures
        result is Ok <==> kind_of(dataset_config.source@) is Some,
        result matches Ok(request) ==> Some(request.kind) == kind_of(dataset_config.source@)
            && request.identifier == dataset_config.identifier,
        result matches Err(error) ==> error@ == (crate::error::Fault::Config {
            missing_key: dataset_config.source@,
        }),
{
    match source_kind(dataset_config.source) {
        Some(kind) => Ok(FetchRequest { kind, identifier: dataset_config.identifier }),
        None => Err(PipelineError::config(dataset_config.source)),
    }
}

/// Whether a status is a success: from 200 to 299.
pub open spec fn is_success(status: u16) -> bool {
    200 <= status <= 299
}

/// Passes a reply whose status is a success, and fails on the network with
/// the status and the address on any other.
pub fn check_status(status: u16, url: &str) -> (result: Result<(), PipelineError>)
    ensures
        result is Ok <==> is_success(status),
        result matches Err(error) ==> error@ == (crate::error::Fault::Network {
            status,
            url: url@,
        }),
{
    if 200 <= status && status <= 299 {
        Ok(())
    } else {
        Err(PipelineError::network(status, url))
    }
}

/// The dataset of a registry entry and the table fetched for it. The entry
/// is to name a source of a known kind: for any other, nothing is fetched and
/// there is no dataset.
pub fn retrieve_dataset(dataset_config: DatasetConfig, data_frame: crate::frame::table::Table)
    -> (dataset: DatasetWithConfig)
    requires
        kind_of(dataset_config.source@) is Some,
    ensures
        dataset@ == (DatasetView {
            name: dataset_config.name@,
            table: data_frame@,
            config: dataset_config,
        }),
{
    DatasetWithConfig::new(dataset_config.name, data_frame, dataset_config)
}

/// What is wrong where fewer than eight datasets were fetched.
pub const TOO_FEW: &'static str = "fewer than eight datasets were fetched";

/// Puts the fetched datasets, which come in the order of the registry, in
/// their places. Fewer than eight cannot be placed.
pub fn assemble_datasets(fetched: Vec<DatasetWithConfig>) -> (result: Result<
    AllDatasets,
    PipelineError,
>)
    ensures
        result is Ok <==> fetched.len() >= 8,
        result matches Ok(all) ==> all.views() == fetched.deep_view().take(8),
        result matches Err(error) ==> error@ == (crate::error::Fault::Format {
            description: TOO_FEW@,
        }),
{
    if fetched.len() < 8 {
        return Err(PipelineError::format(TOO_FEW));
    }
    let all = AllDatasets::new(
        fetched[0].clone(),
        fetched[1].clone(),
        fetched[2].clone(),
        fetched[3].clone(),
        fetched[4].clone(),
        fetched[5].clone(),
        fetched[6].clone(),
        fetched[7].clone(),
    );
    assert(all.views() =~= fetched.deep_view().take(8));
    Ok(all)
}

} // verus!
