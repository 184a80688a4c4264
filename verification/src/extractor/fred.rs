//! The JSON source: a series is an ordered list of observations, each a date
//! and a value in text.

use vstd::prelude::*;
use vstd::string::StringExecFns;
use crate::error::Fault;
use crate::error::PipelineError;
use crate::extractor::extractor_manager::check_status;
use crate::extractor::extractor_manager::is_success;
use crate::frame::amount::Amount;
use crate::frame::amount::Formula;
use crate::frame::column::CellsView;
use crate::frame::column::Column;
use crate::frame::column::ColumnView;
use crate::frame::table::Table;
use crate::numeric::is_number;
use crate::numeric::is_numeric;

verus! {

/// One observation of a series, as the source wrote it.
#[derive(Debug, PartialEq)]
pub struct Observation {
    pub date: String,
    pub value: String,
}

/// What an `Observation` stands for in contracts.
pub struct ObservationView {
    pub date: Seq<char>,
    pub value: Seq<char>,
}

impl View for Observation {
    type V = ObservationView;

    open spec fn view(&self) -> ObservationView {
        ObservationView { date: self.date@, value: self.value@ }
    }
}

impl DeepView for Observation {
    type V = ObservationView;

    open spec fn deep_view(&self) -> ObservationView {
        self@
    }
}

/// The reply of the source to the request for a series.
#[derive(Debug, PartialEq)]
pub struct FredResponse {
    pub observations: Vec<Observation>,
}

/// Where the series are asked for, unless the caller names another place.
pub const DEFAULT_BASE_URL: &'static str = "https://api.stlouisfed.org/fred/series/observations";

/// The name of the column of dates.
pub const DATE_COLUMN: &'static str = "date";

/// The name of the column of values.
pub const VALUE_COLUMN: &'static str = "value";

/// The address of a series: the base, which is the default one where none
/// is given, and behind it the series, the key and the format asked for.
pub open spec fn address(series_id: Seq<char>, input_base_url: Option<Seq<char>>, api_key: Seq<char>)
    -> Seq<char> {
    (match input_base_url {
        Some(base) => base,
        None => DEFAULT_BASE_URL@,
    }) + "?series_id="@ + series_id + "&api_key="@ + api_key + "&file_type=json"@
}

/// The address of a series.
pub fn request_url(series_id: &str, input_base_url: Option<&str>, api_key: &str) -> (url: String)
    ensures
        url@ == address(
            series_id@,
            match input_base_url {
                Some(base) => Some(base@),
                None => None,
            },
            api_key@,
        ),
{
    let base_url = match input_base_url {
        Some(base) => base,
        None => DEFAULT_BASE_URL,
    };
    String::from_str(base_url).concat("?series_id=").concat(series_id).concat("&api_key=").concat(
        api_key,
    ).concat("&file_type=json")
}

/// The place of the first observation among the first `n` whose value is no
/// number.
pub open spec fn first_bad_value(observations: Seq<ObservationView>, n: nat) -> Option<int>
    decreases n,
{
    if n == 0 {
        None
    } else {
        match first_bad_value(observations, (n - 1) as nat) {
            Some(place) => Some(place),
            None => if is_numeric(observations[n - 1].value) {
                None
            } else {
                Some(n - 1)
            },
        }
    }
}

/// The table of a series: the text column `date` and the column of amounts
/// `value`, with one row for each observation in order.
pub open spec fn table_of(observations: Seq<ObservationView>) -> Seq<ColumnView> {
    seq![
        ColumnView {
            name: DATE_COLUMN@,
            cells: CellsView::Text(
                Seq::new(observations.len(), |i: int| Some(observations[i].date)),
            ),
        },
        ColumnView {
            name: VALUE_COLUMN@,
            cells: CellsView::Number(
                Seq::new(
                    observations.len(),
                    |i: int| Some(Formula::Reading(observations[i].value)),
                ),
            ),
        },
    ]
}

/// A value found among the first `n` is the one found in any longer run.
pub proof fn first_bad_value_stays(observations: Seq<ObservationView>, n: nat, m: nat)
    requires
        n <= m,
        first_bad_value(observations, n) is Some,
    ensures
        first_bad_value(observations, m) == first_bad_value(observations, n),
    decreases m,
{
    if n < m {
        first_bad_value_stays(observations, n, (m - 1) as nat);
    }
}

/// The table of a series. It fails at the first value that is no number,
/// naming the field and the value.
pub fn observations_table(observations: &Vec<Observation>) -> (result: Result<
    Table,
    PipelineError,
>)
    ensures
        crate::transformer::normalize::outcome(result) == series_table(observations.deep_view()),
{
    let ghost all = observations.deep_view();
    let mut dates: Vec<Option<String>> = Vec::new();
    let mut values: Vec<Option<Amount>> = Vec::new();
    let mut i: usize = 0;
    while i < observations.len()
        invariant
            i <= observations.len(),
            all == observations.deep_view(),
            dates.len() == i,
            values.len() == i,
            first_bad_value(all, i as nat) is None,
            forall|k: int| 0 <= k < i ==> dates[k].deep_view() == Some(all[k].date),
            forall|k: int|
                0 <= k < i ==> values[k].deep_view() == Some(Formula::Reading(all[k].value)),
        decreases observations.len() - i,
    {
        assert(all[i as int] == observations[i as int]@);
        if !is_number(observations[i].value.as_str()) {
            proof {
                assert(first_bad_value(all, (i + 1) as nat) == Some(i as int));
                first_bad_value_stays(all, (i + 1) as nat, all.len());
            }
            return Err(PipelineError::parse(VALUE_COLUMN, observations[i].value.as_str()));
        }
        dates.push(Some(observations[i].date.clone()));
        values.push(Some(Amount::Reading(observations[i].value.clone())));
        i = i + 1;
    }
    let mut columns: Vec<Column> = Vec::new();
    columns.push(Column::text(DATE_COLUMN, dates));
    columns.push(Column::number(VALUE_COLUMN, values));
    proof {
        reveal_strlit("date");
        reveal_strlit("value");
        assert(DATE_COLUMN@ == "date"@);
        assert(VALUE_COLUMN@ == "value"@);
        let table = table_of(all);
        assert(columns.deep_view()[0].cells->Text_0 =~= table[0].cells->Text_0);
        assert(columns.deep_view()[1].cells->Number_0 =~= table[1].cells->Number_0);
        assert(columns.deep_view() =~= table);
        assert(table[0].name.len() == 4 && table[1].name.len() == 5);
        assert(table[0].cells.len() == table[1].cells.len());
    }
    Ok(Table::assemble(columns))
}

/// What `observations_table` returns: the table of the series, or a
/// failure of the text that names the field and the first value that is no
/// number.
pub open spec fn series_table(observations: Seq<ObservationView>) -> Result<
    Seq<ColumnView>,
    Fault,
> {
    match first_bad_value(observations, observations.len()) {
        Some(place) => Err(
            Fault::Parse { field: VALUE_COLUMN@, raw_value: observations[place].value },
        ),
        None => Ok(table_of(observations)),
    }
}

/// What `table_from_response` returns: a failure of the network with the
/// status and the address where the status is no success, else what
/// `observations_table` returns.
pub open spec fn response_table(status: u16, url: Seq<char>, observations: Seq<ObservationView>)
    -> Result<Seq<ColumnView>, Fault> {
    if !is_success(status) {
        Err(Fault::Network { status, url })
    } else {
        series_table(observations)
    }
}

/// The table of a reply of the source, which has the status and the
/// observations given and came from the address `url`.
pub fn table_from_response(status: u16, url: &str, response: &FredResponse) -> (result: Result<
    Table,
    PipelineError,
>)
    ensures
        crate::transformer::normalize::outcome(result) == response_table(
            status,
            url@,
            response.observations.deep_view(),
        ),
{
    match check_status(status, url) {
        Ok(()) => {},
        Err(error) => {
            return Err(error);
        },
    }
    observations_table(&response.observations)
}

} // verus!
