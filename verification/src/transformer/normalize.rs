//! The transforms of the pipeline: bucketing dated rows into quarters and
//! averaging them, renaming columns, converting to dollars, and joining all
//! datasets on the quarter.

use vstd::prelude::*;
use rayon::iter::IntoParallelIterator;
use rayon::iter::ParallelIterator;
use crate::datasets_config::datasets_config::QuarterlyAverageConfig;
use crate::model::data_model::AllDatasets;
use crate::model::data_model::DatasetView;
use crate::model::data_model::DatasetWithConfig;
use crate::frame::names::with_names;
use crate::frame::names::WRONG_COUNT;
use crate::frame::join::join_fault;
use crate::frame::join::can_join;
use crate::frame::join::joined;
use crate::frame::rows::without_nulls;
use crate::transformer::convert::conversion;
use crate::transformer::convert::convert_table;
use crate::error::Fault;
use crate::error::PipelineError;
use crate::frame::amount::mean_formula;
use crate::frame::amount::Amount;
use crate::frame::amount::Formula;
use crate::frame::column::Cells;
use crate::frame::column::CellsView;
use crate::frame::column::Column;
use crate::frame::column::ColumnView;
use crate::frame::join::text_cells;
use crate::frame::table::has_column;
use crate::frame::table::height_of;
use crate::frame::table::well_shaped;
use crate::frame::table::position_of;
use crate::frame::table::Table;
use crate::text::same_text;
use crate::transformer::calendar::calendar_fields;
use crate::transformer::calendar::calendar_fields_of;
use crate::transformer::calendar::dates_can_be_read;
use crate::transformer::calendar::months_are_months;
use crate::transformer::quarter::label_of;
use crate::transformer::quarter::quarter_label;

verus! {

/// The name of the column that holds the quarter's label in every table from
/// the normalizer onward.
pub const QUARTER: &'static str = "quarter";

/// The label of the quarter of each row whose date was read.
pub open spec fn labels_of(fields: Seq<Option<(i32, i8)>>) -> Seq<Option<Seq<char>>> {
    Seq::new(
        fields.len(),
        |i: int|
            match fields[i] {
                Some((year, month)) => Some(quarter_label(year as int, month as int)),
                None => None,
            },
    )
}

/// The labels of the first `n` rows, each once, in the order in which they
/// first appear. Rows without a label are left out.
pub open spec fn distinct_labels(labels: Seq<Option<Seq<char>>>, n: nat) -> Seq<Seq<char>>
    decreases n,
{
    if n == 0 {
        Seq::empty()
    } else {
        let before = distinct_labels(labels, (n - 1) as nat);
        match labels[n - 1] {
            Some(label) => if before.contains(label) {
                before
            } else {
                before.push(label)
            },
            None => before,
        }
    }
}

/// The values of the rows among the first `n` that have the given label and
/// a value, in the order of the rows.
pub open spec fn group_members(
    labels: Seq<Option<Seq<char>>>,
    values: Seq<Option<Formula>>,
    label: Seq<char>,
    n: nat,
) -> Seq<Formula>
    decreases n,
{
    if n == 0 {
        Seq::empty()
    } else {
        let before = group_members(labels, values, label, (n - 1) as nat);
        if labels[n - 1] == Some(label) && values[n - 1] is Some {
            before.push(values[n - 1]->0)
        } else {
            before
        }
    }
}

/// The table of quarterly averages: a row for each distinct label, in the
/// order of first appearance, with the mean of the values of its rows. A
/// label whose rows all lack a value has an empty cell.
pub open spec fn averaged(
    labels: Seq<Option<Seq<char>>>,
    values: Seq<Option<Formula>>,
    alias: Seq<char>,
) -> Seq<ColumnView> {
    let groups = distinct_labels(labels, labels.len());
    seq![
        ColumnView {
            name: QUARTER@,
            cells: CellsView::Text(Seq::new(groups.len(), |g: int| Some(groups[g]))),
        },
        ColumnView {
            name: alias,
            cells: CellsView::Number(
                Seq::new(
                    groups.len(),
                    |g: int| mean_formula(group_members(labels, values, groups[g], labels.len())),
                ),
            ),
        },
    ]
}

/// The label of the quarter of each row whose date was read.
pub fn quarter_labels(fields: &Vec<Option<(i32, i8)>>) -> (labels: Vec<Option<String>>)
    requires
        months_are_months(fields@),
    ensures
        labels.deep_view() == labels_of(fields@),
{
    let mut labels: Vec<Option<String>> = Vec::new();
    let mut i: usize = 0;
    while i < fields.len()
        invariant
            i <= fields.len(),
            labels.len() == i,
            months_are_months(fields@),
            forall|k: int| 0 <= k < i ==> labels[k].deep_view() == labels_of(fields@)[k],
        decreases fields.len() - i,
    {
        let label = match fields[i] {
            Some((year, month)) => Some(label_of(year, month)),
            None => None,
        };
        labels.push(label);
        i = i + 1;
    }
    assert(labels.deep_view() =~= labels_of(fields@));
    labels
}

/// Whether `label` is among `groups`.
fn is_among(groups: &Vec<String>, label: &str) -> (found: bool)
    ensures
        found == groups.deep_view().contains(label@),
{
    let mut g: usize = 0;
    while g < groups.len()
        invariant
            g <= groups.len(),
            forall|k: int| 0 <= k < g ==> groups.deep_view()[k] != label@,
        decreases groups.len() - g,
    {
        if same_text(groups[g].as_str(), label) {
            assert(groups.deep_view()[g as int] == label@);
            return true;
        }
        g = g + 1;
    }
    false
}

/// The distinct labels, in the order in which they first appear.
fn groups_of(labels: &Vec<Option<String>>) -> (groups: Vec<String>)
    ensures
        groups.deep_view() == distinct_labels(labels.deep_view(), labels.len() as nat),
{
    let mut groups: Vec<String> = Vec::new();
    let mut i: usize = 0;
    assert(groups.deep_view() =~= Seq::<Seq<char>>::empty());
    while i < labels.len()
        invariant
            i <= labels.len(),
            groups.deep_view() == distinct_labels(labels.deep_view(), i as nat),
        decreases labels.len() - i,
    {
        let ghost before = groups.deep_view();
        assert(labels.deep_view()[i as int] == labels[i as int].deep_view());
        match &labels[i] {
            Some(label) => {
                if !is_among(&groups, label.as_str()) {
                    groups.push(label.clone());
                    assert(groups.deep_view() =~= before.push(label@));
                }
            },
            None => {},
        }
        i = i + 1;
    }
    groups
}

/// The values of the rows that have the given label and a value.
fn members_of(labels: &Vec<Option<String>>, values: &Vec<Option<Amount>>, label: &str) -> (members:
    Vec<Amount>)
    requires
        labels.len() == values.len(),
    ensures
        members.deep_view() == group_members(
            labels.deep_view(),
            values.deep_view(),
            label@,
            labels.len() as nat,
        ),
{
    let mut members: Vec<Amount> = Vec::new();
    let mut i: usize = 0;
    assert(members.deep_view() =~= Seq::<Formula>::empty());
    while i < labels.len()
        invariant
            i <= labels.len(),
            labels.len() == values.len(),
            members.deep_view() == group_members(
                labels.deep_view(),
                values.deep_view(),
                label@,
                i as nat,
            ),
        decreases labels.len() - i,
    {
        let ghost before = members.deep_view();
        assert(labels.deep_view()[i as int] == labels[i as int].deep_view());
        assert(values.deep_view()[i as int] == values[i as int].deep_view());
        let in_group = match &labels[i] {
            Some(own) => same_text(own.as_str(), label),
            None => false,
        };
        if in_group {
            match &values[i] {
                Some(value) => {
                    members.push(value.clone());
                    assert(members.deep_view() =~= before.push(value@));
                },
                None => {},
            }
        }
        i = i + 1;
    }
    members
}

/// Averages the values per label: the table has the columns `quarter` and
/// `alias`, and a row for each distinct label in the order of first
/// appearance. Rows without a label count for nothing, and rows without a
/// value do not enter the mean.
pub fn average_by_quarter(
    labels: &Vec<Option<String>>,
    values: &Vec<Option<Amount>>,
    alias: &str,
) -> (table: Table)
    requires
        labels.len() == values.len(),
        alias@ != QUARTER@,
    ensures
        table@ == averaged(labels.deep_view(), values.deep_view(), alias@),
{
    let groups = groups_of(labels);
    let mut quarters: Vec<Option<String>> = Vec::new();
    let mut means: Vec<Option<Amount>> = Vec::new();
    let ghost lv = labels.deep_view();
    let ghost vv = values.deep_view();
    let mut g: usize = 0;
    while g < groups.len()
        invariant
            g <= groups.len(),
            labels.len() == values.len(),
            lv == labels.deep_view(),
            vv == values.deep_view(),
            quarters.len() == g,
            means.len() == g,
            forall|k: int| 0 <= k < g ==> quarters[k].deep_view() == Some(groups.deep_view()[k]),
            forall|k: int|
                0 <= k < g ==> means[k].deep_view() == mean_formula(
                    group_members(lv, vv, groups.deep_view()[k], lv.len()),
                ),
        decreases groups.len() - g,
    {
        let members = members_of(labels, values, groups[g].as_str());
        assert(groups.deep_view()[g as int] == groups[g as int]@);
        quarters.push(Some(groups[g].clone()));
        means.push(Amount::mean_of(members));
        g = g + 1;
    }
    let mut columns: Vec<Column> = Vec::new();
    columns.push(Column::text(QUARTER, quarters));
    columns.push(Column::number(alias, means));
    proof {
        let all = averaged(lv, vv, alias@);
        assert(columns.deep_view()[0].cells->Text_0 =~= all[0].cells->Text_0);
        assert(columns.deep_view()[1].cells->Number_0 =~= all[1].cells->Number_0);
        assert(columns.deep_view() =~= all);
    }
    Table::assemble(columns)
}

/// The cells of a column of amounts; none for a text column.
pub open spec fn number_cells(column: ColumnView) -> Seq<Option<Formula>> {
    match column.cells {
        CellsView::Number(cells) => cells,
        CellsView::Text(_) => Seq::empty(),
    }
}

/// Whether the table has a text column of the given name.
pub open spec fn has_text_column(columns: Seq<ColumnView>, name: Seq<char>) -> bool {
    has_column(columns, name) && columns[position_of(columns, name)].cells is Text
}

/// Whether the table has a column of amounts of the given name.
pub open spec fn has_number_column(columns: Seq<ColumnView>, name: Seq<char>) -> bool {
    has_column(columns, name) && columns[position_of(columns, name)].cells is Number
}

/// What is wrong where the date column is no text column.
pub const NO_DATES: &'static str = "the date column is no text column";

/// What is wrong where the target is called `quarter`.
pub const TARGET_IS_QUARTER: &'static str = "the target column is the quarter column";

/// What is wrong where the alias is `quarter`.
pub const ALIAS_IS_QUARTER: &'static str = "the alias is the name of the quarter column";

/// What is wrong where the target is no column of amounts.
pub const NO_TARGET: &'static str = "the target column is no column of amounts";

/// What `process_quarterly_average` returns. It fails on the format where
/// the date column is no text column; on the text of the mask, naming the
/// date column and the mask, where the dates cannot be read under it; and
/// again on the format where the target or the alias is called `quarter`, or
/// the target is no column of amounts. The first of these that holds decides.
pub open spec fn quarterly_average(
    columns: Seq<ColumnView>,
    date_column_name: Seq<char>,
    target_column_name: Seq<char>,
    target_column_alias: Seq<char>,
    date_format_mask: Seq<char>,
) -> Result<Seq<ColumnView>, Fault> {
    if !has_text_column(columns, date_column_name) {
        Err(Fault::Format { description: NO_DATES@ })
    } else {
        let texts = text_cells(columns[position_of(columns, date_column_name)]);
        if !dates_can_be_read(texts, date_format_mask) {
            Err(Fault::Parse { field: date_column_name, raw_value: date_format_mask })
        } else if target_column_name == QUARTER@ {
            Err(Fault::Format { description: TARGET_IS_QUARTER@ })
        } else if target_column_alias == QUARTER@ {
            Err(Fault::Format { description: ALIAS_IS_QUARTER@ })
        } else if !has_number_column(columns, target_column_name) {
            Err(Fault::Format { description: NO_TARGET@ })
        } else {
            Ok(
                averaged(
                    labels_of(calendar_fields(texts, date_format_mask)->0),
                    number_cells(columns[position_of(columns, target_column_name)]),
                    target_column_alias,
                ),
            )
        }
    }
}

/// A table or a failure, as contracts speak of it.
pub open spec fn outcome(result: Result<Table, PipelineError>) -> Result<Seq<ColumnView>, Fault> {
    match result {
        Ok(table) => Ok(table@),
        Err(error) => Err(error@),
    }
}

impl Table {
    /// The cells of the column `name`, where that is a column of amounts.
    pub fn number_column(&self, name: &str) -> (found: Option<&Vec<Option<Amount>>>)
        ensures
            found is Some <==> has_number_column(self@, name@),
            found matches Some(cells) ==> cells.deep_view() == number_cells(
                self@[position_of(self@, name@)],
            ) && cells.len() == height_of(self@),
            well_shaped(self@),
    {
        match self.column(name) {
            Some(column) => match &column.cells {
                Cells::Number(cells) => {
                    assert(self@[position_of(self@, name@)].cells.len() == self@[0].cells.len());
                    Some(cells)
                },
                Cells::Text(_) => None,
            },
            None => None,
        }
    }
}

/// Buckets the rows of a table into quarters by the date in
/// `date_column_name`, read under `date_format_mask`, and averages
/// `target_column_name` per quarter. The result has the columns `quarter` and
/// `target_column_alias`. Rows whose date cannot be read are dropped.
pub fn process_quarterly_average(
    date_column_name: &str,
    target_column_name: &str,
    target_column_alias: &str,
    date_format_mask: &str,
    df: Table,
) -> (result: Result<Table, PipelineError>)
    ensures
        outcome(result) == quarterly_average(
            df@,
            date_column_name@,
            target_column_name@,
            target_column_alias@,
            date_format_mask@,
        ),
{
    let texts = match df.text_column(date_column_name) {
        Some(texts) => texts,
        None => {
            return Err(PipelineError::format(NO_DATES));
        },
    };
    let fields = match calendar_fields_of(texts, date_column_name, date_format_mask) {
        Ok(fields) => fields,
        Err(error) => {
            return Err(error);
        },
    };
    if same_text(target_column_name, QUARTER) {
        return Err(PipelineError::format(TARGET_IS_QUARTER));
    }
    if same_text(target_column_alias, QUARTER) {
        return Err(PipelineError::format(ALIAS_IS_QUARTER));
    }
    let values = match df.number_column(target_column_name) {
        Some(values) => values,
        None => {
            return Err(PipelineError::format(NO_TARGET));
        },
    };
    let labels = quarter_labels(&fields);
    Ok(average_by_quarter(&labels, values, target_column_alias))
}

/// A dataset or a failure, as contracts speak of it.
pub open spec fn dataset_outcome(result: Result<DatasetWithConfig, PipelineError>) -> Result<
    DatasetView,
    Fault,
> {
    match result {
        Ok(dataset) => Ok(dataset@),
        Err(error) => Err(error@),
    }
}

/// Datasets or a failure, as contracts speak of it.
pub open spec fn datasets_outcome(result: Result<Vec<DatasetWithConfig>, PipelineError>) -> Result<
    Seq<DatasetView>,
    Fault,
> {
    match result {
        Ok(datasets) => Ok(datasets.deep_view()),
        Err(error) => Err(error@),
    }
}

/// The dataset with another table.
pub open spec fn with_table(dataset: DatasetView, table: Seq<ColumnView>) -> DatasetView {
    DatasetView { name: dataset.name, table, config: dataset.config }
}

/// The setting that a dataset lacks when it requires an average and does
/// not say how.
pub const HOW_TO_AVERAGE: &'static str = "quarterly_average_config";

/// What `normalize_dataset` returns: the dataset as it is where no average
/// is required, else with the table of its quarterly averages. A dataset that
/// requires an average and does not say how is a failure of configuration.
pub open spec fn normalized(dataset: DatasetView) -> Result<DatasetView, Fault> {
    if !dataset.config.quarterly_avg_required {
        Ok(dataset)
    } else {
        match dataset.config.quarterly_average_config {
            None => Err(Fault::Config { missing_key: HOW_TO_AVERAGE@ }),
            Some(how) => match quarterly_average(
                dataset.table,
                how.date_column_name@,
                how.target_column_name@,
                how.target_column_alias@,
                how.date_format_mask@,
            ) {
                Ok(table) => Ok(with_table(dataset, table)),
                Err(fault) => Err(fault),
            },
        }
    }
}

/// The first `n` outcomes gathered: the first failure in order, or all
/// datasets.
pub open spec fn gathered(outcomes: Seq<Result<DatasetView, Fault>>, n: nat) -> Result<
    Seq<DatasetView>,
    Fault,
>
    decreases n,
{
    if n == 0 {
        Ok(Seq::empty())
    } else {
        match gathered(outcomes, (n - 1) as nat) {
            Err(fault) => Err(fault),
            Ok(done) => match outcomes[n - 1] {
                Ok(dataset) => Ok(done.push(dataset)),
                Err(fault) => Err(fault),
            },
        }
    }
}

/// Normalizes one dataset: where its registry entry requires a quarterly
/// average, the table is replaced by the averages; else it passes through.
pub fn normalize_dataset(dataset: DatasetWithConfig) -> (result: Result<
    DatasetWithConfig,
    PipelineError,
>)
    ensures
        dataset_outcome(result) == normalized(dataset@),
{
    if !dataset.dataset_config.quarterly_avg_required {
        return Ok(dataset);
    }
    let how: QuarterlyAverageConfig = match dataset.dataset_config.quarterly_average_config {
        Some(how) => how,
        None => {
            return Err(PipelineError::config(HOW_TO_AVERAGE));
        },
    };
    let name = dataset.name;
    let config = dataset.dataset_config;
    match process_quarterly_average(
        how.date_column_name,
        how.target_column_name,
        how.target_column_alias,
        how.date_format_mask,
        dataset.dataframe,
    ) {
        Ok(table) => Ok(DatasetWithConfig::new(name, table, config)),
        Err(error) => Err(error),
    }
}

/// `into_par_iter`, `map` and `collect` of `rayon`, with `normalize_dataset`
/// as the function that is mapped. The contract claims, without proof, that
/// the results come in the order of the items, each being what
/// `normalize_dataset` ensures of its item.
#[verifier::external_body]
fn normalize_each(items: Vec<DatasetWithConfig>) -> (results: Vec<
    Result<DatasetWithConfig, PipelineError>,
>)
    ensures
        results.len() == items.len(),
        forall|i: int|
            0 <= i < items.len() ==> dataset_outcome(#[trigger] results[i]) == normalized(
                items[i]@,
            ),
{
    items.into_par_iter().map(normalize_dataset).collect()
}

/// What each dataset becomes when normalized.
pub open spec fn each_normalized(datasets: Seq<DatasetWithConfig>) -> Seq<
    Result<DatasetView, Fault>,
> {
    Seq::new(datasets.len(), |i: int| normalized(datasets[i]@))
}

/// Normalizes the eight datasets, each for itself, and returns them in the
/// order of the registry, or the first failure in that order.
pub fn normalize_data(all_datasets: AllDatasets) -> (result: Result<
    Vec<DatasetWithConfig>,
    PipelineError,
>)
    ensures
        datasets_outcome(result) == gathered(each_normalized(all_datasets.in_order()), 8),
{
    let ghost items = all_datasets.in_order();
    let mut results = normalize_each(all_datasets.items());
    let ghost outcomes = each_normalized(items);
    let mut datasets: Vec<DatasetWithConfig> = Vec::new();
    assert(datasets.deep_view() =~= Seq::<DatasetView>::empty());
    let ghost all = results@;
    let mut i: usize = 0;
    while results.len() > 0
        invariant
            all.len() == 8,
            outcomes.len() == 8,
            outcomes == each_normalized(items),
            items == all_datasets.in_order(),
            i + results.len() == 8,
            results@ == all.skip(i as int),
            forall|k: int| 0 <= k < 8 ==> dataset_outcome(#[trigger] all[k]) == outcomes[k],
            gathered(outcomes, i as nat) == Ok::<Seq<DatasetView>, Fault>(datasets.deep_view()),
        decreases results.len(),
    {
        let ghost before = datasets.deep_view();
        let next = results.remove(0);
        assert(next == all[i as int]);
        assert(results@ =~= all.skip(i + 1));
        match next {
            Ok(dataset) => {
                assert(dataset_outcome(all[i as int]) == outcomes[i as int]);
                datasets.push(dataset);
                assert(datasets.deep_view() =~= before.push(dataset@));
            },
            Err(error) => {
                proof {
                    assert(dataset_outcome(all[i as int]) == outcomes[i as int]);
                    assert(gathered(outcomes, (i + 1) as nat) == Err::<Seq<DatasetView>, Fault>(
                        error@,
                    ));
                    gathered_keeps_failure(outcomes, (i + 1) as nat, 8);
                }
                return Err(error);
            },
        }
        i = i + 1;
    }
    Ok(datasets)
}

/// A failure among the first `n` outcomes is the failure of any longer run.
pub proof fn gathered_keeps_failure(
    outcomes: Seq<Result<DatasetView, Fault>>,
    n: nat,
    m: nat,
)
    requires
        n <= m,
        gathered(outcomes, n) is Err,
    ensures
        gathered(outcomes, m) == gathered(outcomes, n),
    decreases m,
{
    if n < m {
        gathered_keeps_failure(outcomes, n, (m - 1) as nat);
    }
}

/// The canonical column names of a dataset, for the datasets that have
/// them.
pub open spec fn canonical_names(name: Seq<char>) -> Option<Seq<Seq<char>>> {
    if name == "fx_rates"@ {
        Some(seq![QUARTER@, "eur_to_usd"@])
    } else if name == "eu_government_debt"@ {
        Some(seq![QUARTER@, "eu_government_debt"@])
    } else if name == "eu_gdp"@ {
        Some(seq![QUARTER@, "eu_gdp"@])
    } else if name == "eu_inflation"@ {
        Some(seq![QUARTER@, "eu_inflation"@])
    } else {
        None
    }
}

/// What the table of a dataset becomes when renamed: that of a dataset with
/// canonical names gets them, if it has two columns, and fails on the shape
/// if not; any other stays as it is.
pub open spec fn renamed(dataset: DatasetView) -> Result<DatasetView, Fault> {
    match canonical_names(dataset.name) {
        None => Ok(dataset),
        Some(names) => if dataset.table.len() == 2 {
            Ok(with_table(dataset, with_names(dataset.table, names)))
        } else {
            Err(Fault::Format { description: WRONG_COUNT@ })
        },
    }
}

/// What each dataset becomes when renamed.
pub open spec fn each_renamed(datasets: Seq<DatasetView>) -> Seq<Result<DatasetView, Fault>> {
    Seq::new(datasets.len(), |i: int| renamed(datasets[i]))
}

/// The canonical metric name of a dataset, for the datasets that have one.
fn canonical_metric(name: &str) -> (metric: Option<&'static str>)
    ensures
        match metric {
            Some(metric) => canonical_names(name@) == Some(seq![QUARTER@, metric@]) && metric@
                != QUARTER@,
            None => canonical_names(name@) is None,
        },
{
    proof {
        reveal_strlit("quarter");
        reveal_strlit("fx_rates");
        reveal_strlit("eur_to_usd");
        reveal_strlit("eu_government_debt");
        reveal_strlit("eu_gdp");
        reveal_strlit("eu_inflation");
    }
    assert(QUARTER@ == "quarter"@);
    if same_text(name, "fx_rates") {
        Some("eur_to_usd")
    } else if same_text(name, "eu_government_debt") {
        Some("eu_government_debt")
    } else if same_text(name, "eu_gdp") {
        Some("eu_gdp")
    } else if same_text(name, "eu_inflation") {
        Some("eu_inflation")
    } else {
        None
    }
}

/// Renames the columns of one dataset to its canonical names.
pub fn rename_dataset(dataset: DatasetWithConfig) -> (result: Result<
    DatasetWithConfig,
    PipelineError,
>)
    ensures
        dataset_outcome(result) == renamed(dataset@),
{
    match canonical_metric(dataset.name) {
        None => Ok(dataset),
        Some(metric) => {
            let names: Vec<&str> = vec![QUARTER, metric];
            let name = dataset.name;
            let config = dataset.dataset_config;
            let ghost table = dataset.dataframe@;
            proof {
                let texts = crate::frame::names::texts_of(names@);
                assert(texts =~= seq![QUARTER@, metric@]);
                assert(crate::frame::names::all_distinct(texts));
            }
            match dataset.dataframe.set_column_names(&names) {
                Ok(renamed) => Ok(DatasetWithConfig::new(name, renamed, config)),
                Err(error) => Err(error),
            }
        },
    }
}

/// Renames the columns of each dataset to the canonical names of its
/// dataset. Datasets without canonical names pass through. It returns the
/// datasets in their order, or the first failure in that order.
pub fn rename_columns(datasets: Vec<DatasetWithConfig>) -> (result: Result<
    Vec<DatasetWithConfig>,
    PipelineError,
>)
    ensures
        datasets_outcome(result) == gathered(
            each_renamed(datasets.deep_view()),
            datasets.len() as nat,
        ),
{
    let ghost all = datasets.deep_view();
    let ghost outcomes = each_renamed(all);
    let ghost total = datasets.len();
    let mut rest = datasets;
    let mut output_datasets: Vec<DatasetWithConfig> = Vec::new();
    assert(output_datasets.deep_view() =~= Seq::<DatasetView>::empty());
    let mut i: usize = 0;
    while rest.len() > 0
        invariant
            all.len() == total,
            all == datasets.deep_view(),
            total == datasets.len(),
            outcomes == each_renamed(all),
            i + rest.len() == total,
            rest.deep_view() == all.skip(i as int),
            gathered(outcomes, i as nat) == Ok::<Seq<DatasetView>, Fault>(
                output_datasets.deep_view(),
            ),
        decreases rest.len(),
    {
        let ghost before = output_datasets.deep_view();
        let ghost rest_before = rest.deep_view();
        let ghost items_before = rest@;
        let dataset = rest.remove(0);
        proof {
            assert(dataset@ == rest_before[0]);
            assert forall|k: int| 0 <= k < rest.len() implies rest.deep_view()[k] == all.skip(
                i + 1,
            )[k] by {
                assert(rest@[k] == items_before[k + 1]);
                assert(rest_before[k + 1] == items_before[k + 1]@);
            }
            assert(rest.deep_view() =~= all.skip(i + 1));
            assert(outcomes[i as int] == renamed(dataset@));
        }
        match rename_dataset(dataset) {
            Ok(renamed) => {
                output_datasets.push(renamed);
                assert(output_datasets.deep_view() =~= before.push(renamed@));
            },
            Err(error) => {
                proof {
                    assert(gathered(outcomes, (i + 1) as nat) == Err::<Seq<DatasetView>, Fault>(
                        error@,
                    ));
                    gathered_keeps_failure(outcomes, (i + 1) as nat, total as nat);
                }
                return Err(error);
            },
        }
        i = i + 1;
    }
    Ok(output_datasets)
}

/// The name of the dataset that holds the exchange rate.
pub const FX_RATES: &'static str = "fx_rates";

/// Whether the metric of a dataset is an amount in euro, to be converted to
/// dollars: gross domestic product and government debt of the euro area.
pub open spec fn is_convertible(name: Seq<char>) -> bool {
    name == "eu_gdp"@ || name == "eu_government_debt"@
}

/// The place of the first dataset of the given name among the first `n`.
pub open spec fn first_named(datasets: Seq<DatasetView>, name: Seq<char>, n: nat) -> Option<int>
    decreases n,
{
    if n == 0 {
        None
    } else {
        match first_named(datasets, name, (n - 1) as nat) {
            Some(place) => Some(place),
            None => if datasets[n - 1].name == name {
                Some(n - 1)
            } else {
                None
            },
        }
    }
}

/// The datasets among the first `n` that are not converted, in order.
pub open spec fn kept(datasets: Seq<DatasetView>, n: nat) -> Seq<DatasetView>
    decreases n,
{
    if n == 0 {
        Seq::empty()
    } else if is_convertible(datasets[n - 1].name) {
        kept(datasets, (n - 1) as nat)
    } else {
        kept(datasets, (n - 1) as nat).push(datasets[n - 1])
    }
}

/// The datasets among the first `n` that are converted, each with its
/// converted table, in order; or the first failure in that order.
pub open spec fn converted(datasets: Seq<DatasetView>, rate_table: Seq<ColumnView>, n: nat)
    -> Result<Seq<DatasetView>, Fault>
    decreases n,
{
    if n == 0 {
        Ok(Seq::empty())
    } else {
        match converted(datasets, rate_table, (n - 1) as nat) {
            Err(fault) => Err(fault),
            Ok(done) => if is_convertible(datasets[n - 1].name) {
                match conversion(datasets[n - 1].table, rate_table, datasets[n - 1].name) {
                    Ok(table) => Ok(done.push(with_table(datasets[n - 1], table))),
                    Err(fault) => Err(fault),
                }
            } else {
                Ok(done)
            },
        }
    }
}

/// What is wrong where no dataset holds the exchange rate.
pub const NO_RATES: &'static str = "no dataset holds the exchange rate";

/// What `convert_eu_to_usd` returns: a failure of the join where no dataset
/// is called `fx_rates`; else the datasets that are not converted, in order,
/// and behind them the converted ones, in order; or the first failure of a
/// conversion.
pub open spec fn all_converted(datasets: Seq<DatasetView>) -> Result<Seq<DatasetView>, Fault> {
    match first_named(datasets, FX_RATES@, datasets.len()) {
        None => Err(Fault::Join { reason: NO_RATES@ }),
        Some(place) => match converted(datasets, datasets[place].table, datasets.len()) {
            Err(fault) => Err(fault),
            Ok(done) => Ok(kept(datasets, datasets.len()) + done),
        },
    }
}

/// A failure among the first `n` conversions is the failure of any longer
/// run.
pub proof fn converted_keeps_failure(
    datasets: Seq<DatasetView>,
    rate_table: Seq<ColumnView>,
    n: nat,
    m: nat,
)
    requires
        n <= m,
        converted(datasets, rate_table, n) is Err,
    ensures
        converted(datasets, rate_table, m) == converted(datasets, rate_table, n),
    decreases m,
{
    if n < m {
        converted_keeps_failure(datasets, rate_table, n, (m - 1) as nat);
    }
}

/// Whether the metric of a dataset is converted to dollars.
pub fn is_euro_amount(name: &str) -> (convertible: bool)
    ensures
        convertible == is_convertible(name@),
{
    same_text(name, "eu_gdp") || same_text(name, "eu_government_debt")
}

/// A copy of the table of the first dataset called `fx_rates`.
fn rate_table_of(datasets: &Vec<DatasetWithConfig>) -> (found: Option<Table>)
    ensures
        match found {
            Some(table) => first_named(datasets.deep_view(), FX_RATES@, datasets.len() as nat)
                matches Some(place) && table@ == datasets.deep_view()[place].table,
            None => first_named(datasets.deep_view(), FX_RATES@, datasets.len() as nat) is None,
        },
{
    let mut i: usize = 0;
    while i < datasets.len()
        invariant
            i <= datasets.len(),
            first_named(datasets.deep_view(), FX_RATES@, i as nat) is None,
        decreases datasets.len() - i,
    {
        assert(datasets.deep_view()[i as int] == datasets[i as int]@);
        if same_text(datasets[i].name, FX_RATES) {
            proof {
                first_named_stays(datasets.deep_view(), FX_RATES@, (i + 1) as nat, datasets.len() as nat);
            }
            return Some(datasets[i].dataframe.clone());
        }
        i = i + 1;
    }
    None
}

/// A dataset found among the first `n` is the one found in any longer run.
pub proof fn first_named_stays(datasets: Seq<DatasetView>, name: Seq<char>, n: nat, m: nat)
    requires
        n <= m,
        first_named(datasets, name, n) is Some,
    ensures
        first_named(datasets, name, m) == first_named(datasets, name, n),
    decreases m,
{
    if n < m {
        first_named_stays(datasets, name, n, (m - 1) as nat);
    }
}

/// Converts the metrics in euro to dollars: the tables of `eu_gdp` and
/// `eu_government_debt` are multiplied, quarter by quarter, by the rate of
/// the dataset `fx_rates`. The other datasets pass through and come first.
pub fn convert_eu_to_usd(all_datasets: Vec<DatasetWithConfig>) -> (result: Result<
    Vec<DatasetWithConfig>,
    PipelineError,
>)
    ensures
        datasets_outcome(result) == all_converted(all_datasets.deep_view()),
{
    let rate_table = match rate_table_of(&all_datasets) {
        Some(table) => table,
        None => {
            return Err(PipelineError::join(NO_RATES));
        },
    };
    let ghost all = all_datasets.deep_view();
    let ghost total = all_datasets.len();
    let mut rest = all_datasets;
    let mut us_datasets: Vec<DatasetWithConfig> = Vec::new();
    let mut converted_eu_datasets: Vec<DatasetWithConfig> = Vec::new();
    assert(us_datasets.deep_view() =~= Seq::<DatasetView>::empty());
    assert(converted_eu_datasets.deep_view() =~= Seq::<DatasetView>::empty());
    let mut i: usize = 0;
    while rest.len() > 0
        invariant
            all.len() == total,
            all == all_datasets.deep_view(),
            first_named(all, FX_RATES@, total as nat) matches Some(place) && rate_table@
                == all[place].table,
            i + rest.len() == total,
            rest.deep_view() == all.skip(i as int),
            us_datasets.deep_view() == kept(all, i as nat),
            converted(all, rate_table@, i as nat) == Ok::<Seq<DatasetView>, Fault>(
                converted_eu_datasets.deep_view(),
            ),
        decreases rest.len(),
    {
        let ghost kept_before = us_datasets.deep_view();
        let ghost done_before = converted_eu_datasets.deep_view();
        let ghost rest_before = rest.deep_view();
        let ghost items_before = rest@;
        let dataset = rest.remove(0);
        proof {
            assert(dataset@ == rest_before[0]);
            assert forall|k: int| 0 <= k < rest.len() implies rest.deep_view()[k] == all.skip(
                i + 1,
            )[k] by {
                assert(rest@[k] == items_before[k + 1]);
                assert(rest_before[k + 1] == items_before[k + 1]@);
            }
            assert(rest.deep_view() =~= all.skip(i + 1));
        }
        if is_euro_amount(dataset.name) {
            match convert_table(&dataset.dataframe, &rate_table, dataset.name) {
                Ok(table) => {
                    let changed = DatasetWithConfig::new(
                        dataset.name,
                        table,
                        dataset.dataset_config,
                    );
                    converted_eu_datasets.push(changed);
                    assert(converted_eu_datasets.deep_view() =~= done_before.push(changed@));
                },
                Err(error) => {
                    proof {
                        assert(converted(all, rate_table@, (i + 1) as nat) == Err::<
                            Seq<DatasetView>,
                            Fault,
                        >(error@));
                        converted_keeps_failure(all, rate_table@, (i + 1) as nat, total as nat);
                    }
                    return Err(error);
                },
            }
        } else {
            us_datasets.push(dataset);
            assert(us_datasets.deep_view() =~= kept_before.push(dataset@));
        }
        i = i + 1;
    }
    let ghost first = us_datasets.deep_view();
    let ghost second = converted_eu_datasets.deep_view();
    let ghost first_items = us_datasets@;
    let ghost second_items = converted_eu_datasets@;
    us_datasets.append(&mut converted_eu_datasets);
    proof {
        assert(us_datasets@ =~= first_items + second_items);
        assert(us_datasets.deep_view() =~= first + second);
    }
    Ok(us_datasets)
}

/// The tables of the datasets, each without the rows in which a cell is
/// empty.
pub open spec fn cleaned(datasets: Seq<DatasetView>) -> Seq<Seq<ColumnView>> {
    Seq::new(datasets.len(), |i: int| without_nulls(datasets[i].table))
}

/// The last table joined on the quarter with the first `n` tables, one
/// after the other; or a failure of the join where one of them cannot be
/// joined.
pub open spec fn joined_with(tables: Seq<Seq<ColumnView>>, n: nat) -> Result<
    Seq<ColumnView>,
    Fault,
>
    decreases n,
{
    if n == 0 {
        Ok(tables.last())
    } else {
        match joined_with(tables, (n - 1) as nat) {
            Err(fault) => Err(fault),
            Ok(so_far) => if can_join(so_far, tables[n - 1], QUARTER@) {
                Ok(joined(so_far, tables[n - 1], QUARTER@))
            } else {
                Err(join_fault(so_far, tables[n - 1], QUARTER@))
            },
        }
    }
}

/// What is wrong where there is no dataset.
pub const NO_DATASET: &'static str = "there is no dataset to join";

/// What is wrong where the joined table has no row.
pub const NO_COMMON_QUARTER: &'static str = "no quarter is common to all datasets";

/// What `join_all_datasets` returns: a failure of the join where there is
/// no dataset; else the last table joined with all the others in order, each
/// table first losing the rows in which a cell is empty; and a failure of the
/// join again where the table so joined has no row.
pub open spec fn all_joined(datasets: Seq<DatasetView>) -> Result<Seq<ColumnView>, Fault> {
    if datasets.len() == 0 {
        Err(Fault::Join { reason: NO_DATASET@ })
    } else {
        match joined_with(cleaned(datasets), (datasets.len() - 1) as nat) {
            Err(fault) => Err(fault),
            Ok(wide) => if height_of(wide) == 0 {
                Err(Fault::Join { reason: NO_COMMON_QUARTER@ })
            } else {
                Ok(wide)
            },
        }
    }
}

/// A failure among the first `n` joins is the failure of any longer run.
pub proof fn joined_keeps_failure(tables: Seq<Seq<ColumnView>>, n: nat, m: nat)
    requires
        n <= m,
        joined_with(tables, n) is Err,
    ensures
        joined_with(tables, m) == joined_with(tables, n),
    decreases m,
{
    if n < m {
        joined_keeps_failure(tables, n, (m - 1) as nat);
    }
}

/// Joins all datasets on the quarter into one wide table. Each table first
/// loses the rows in which a cell is empty; then the last table is joined
/// with the others in order. The result holds a quarter only if every table
/// has it; where no row is left, the join fails.
pub fn join_all_datasets(all_datasets: Vec<DatasetWithConfig>) -> (result: Result<
    Table,
    PipelineError,
>)
    ensures
        outcome(result) == all_joined(all_datasets.deep_view()),
{
    let ghost all = all_datasets.deep_view();
    let mut all_dataframes: Vec<Table> = Vec::new();
    let mut i: usize = 0;
    while i < all_datasets.len()
        invariant
            i <= all_datasets.len(),
            all == all_datasets.deep_view(),
            all_dataframes.len() == i,
            forall|k: int| 0 <= k < i ==> (#[trigger] all_dataframes[k])@ == cleaned(all)[k],
        decreases all_datasets.len() - i,
    {
        assert(all[i as int] == all_datasets[i as int]@);
        all_dataframes.push(all_datasets[i].dataframe.drop_nulls());
        i = i + 1;
    }
    let ghost tables = cleaned(all);
    let mut df_out = match all_dataframes.pop() {
        Some(table) => table,
        None => {
            return Err(PipelineError::join(NO_DATASET));
        },
    };
    let mut j: usize = 0;
    while j < all_dataframes.len()
        invariant
            j <= all_dataframes.len(),
            tables == cleaned(all),
            all == all_datasets.deep_view(),
            all_dataframes.len() + 1 == tables.len(),
            forall|k: int|
                0 <= k < all_dataframes.len() ==> (#[trigger] all_dataframes[k])@ == tables[k],
            joined_with(tables, j as nat) == Ok::<Seq<ColumnView>, Fault>(df_out@),
        decreases all_dataframes.len() - j,
    {
        match df_out.inner_join(&all_dataframes[j], QUARTER) {
            Ok(table) => {
                df_out = table;
            },
            Err(error) => {
                proof {
                    assert(joined_with(tables, (j + 1) as nat) == Err::<Seq<ColumnView>, Fault>(
                        error@,
                    ));
                    joined_keeps_failure(tables, (j + 1) as nat, (tables.len() - 1) as nat);
                }
                return Err(error);
            },
        }
        j = j + 1;
    }
    if df_out.height() == 0 {
        return Err(PipelineError::join(NO_COMMON_QUARTER));
    }
    Ok(df_out)
}

} // verus!
