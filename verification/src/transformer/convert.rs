//! Converting a metric in euro to dollars: each row of the metric is set
//! against the rows of the rate table of the same quarter.

use vstd::prelude::*;
use vstd::string::StringExecFns;
use crate::error::Fault;
use crate::error::PipelineError;
use crate::frame::amount::product_formula;
use crate::frame::amount::Amount;
use crate::frame::amount::Formula;
use crate::frame::column::copy_amount;
use crate::frame::column::copy_text;
use crate::frame::column::CellsView;
use crate::frame::column::Column;
use crate::frame::column::ColumnView;
use crate::frame::join::key_matches;
use crate::frame::join::matching_rows;
use crate::frame::join::text_cells;
use crate::frame::table::height_of;
use crate::frame::table::position_of;
use crate::frame::table::Table;
use crate::transformer::normalize::has_number_column;
use crate::transformer::normalize::has_text_column;
use crate::transformer::normalize::number_cells;
use crate::transformer::normalize::outcome;
use crate::transformer::normalize::QUARTER;

verus! {

/// The name of the rate column of the rate table.
pub const RATE: &'static str = "eur_to_usd";

/// What is put behind a metric's name to name its converted column.
pub const CONVERTED: &'static str = "_converted";

/// The quarters of the converted table for the first `n` rows of the
/// metric: each row's quarter, once for each rate row of that quarter, and
/// once where there is none.
pub open spec fn converted_quarters(
    keys: Seq<Option<Seq<char>>>,
    rate_keys: Seq<Option<Seq<char>>>,
    n: nat,
) -> Seq<Option<Seq<char>>>
    decreases n,
{
    if n == 0 {
        Seq::empty()
    } else {
        let found = key_matches(keys[n - 1], rate_keys, rate_keys.len());
        converted_quarters(keys, rate_keys, (n - 1) as nat) + Seq::new(
            if found.len() == 0 {
                1
            } else {
                found.len()
            },
            |k: int| keys[n - 1],
        )
    }
}

/// The cells of the converted table for the first `n` rows of the metric:
/// the product of the row's value and the rate, for each rate row of the
/// row's quarter; one empty cell where there is none.
pub open spec fn converted_cells(
    keys: Seq<Option<Seq<char>>>,
    values: Seq<Option<Formula>>,
    rate_keys: Seq<Option<Seq<char>>>,
    rates: Seq<Option<Formula>>,
    n: nat,
) -> Seq<Option<Formula>>
    decreases n,
{
    if n == 0 {
        Seq::empty()
    } else {
        let found = key_matches(keys[n - 1], rate_keys, rate_keys.len());
        converted_cells(keys, values, rate_keys, rates, (n - 1) as nat) + (if found.len() == 0 {
            seq![None]
        } else {
            Seq::new(found.len(), |k: int| product_formula(values[n - 1], rates[found[k]]))
        })
    }
}

/// What is wrong where the metric table lacks the text column `quarter`.
pub const NO_QUARTERS: &'static str = "the metric table has no text column quarter";

/// What is wrong where the metric table lacks the metric.
pub const NO_METRIC: &'static str = "the metric table has no such column of amounts";

/// What is wrong where the rate table lacks the text column `quarter`.
pub const NO_RATE_QUARTERS: &'static str = "the rate table has no text column quarter";

/// What is wrong where the rate table lacks the rate.
pub const NO_RATE: &'static str = "the rate table has no column of amounts for the rate";

/// What `convert_table` returns: the columns `quarter` and the metric's name
/// with `_converted` behind it. It fails on the shape where the metric table
/// lacks the text column `quarter` or the metric as a column of amounts, or
/// the rate table lacks the text column `quarter` or the column of amounts
/// `eur_to_usd`.
pub open spec fn conversion(table: Seq<ColumnView>, rate_table: Seq<ColumnView>, metric: Seq<char>)
    -> Result<Seq<ColumnView>, Fault> {
    if !has_text_column(table, QUARTER@) {
        Err(Fault::Format { description: NO_QUARTERS@ })
    } else if !has_number_column(table, metric) {
        Err(Fault::Format { description: NO_METRIC@ })
    } else if !has_text_column(rate_table, QUARTER@) {
        Err(Fault::Format { description: NO_RATE_QUARTERS@ })
    } else if !has_number_column(rate_table, RATE@) {
        Err(Fault::Format { description: NO_RATE@ })
    } else {
        let keys = text_cells(table[position_of(table, QUARTER@)]);
        let values = number_cells(table[position_of(table, metric)]);
        let rate_keys = text_cells(rate_table[position_of(rate_table, QUARTER@)]);
        let rates = number_cells(rate_table[position_of(rate_table, RATE@)]);
        Ok(
            seq![
                ColumnView {
                    name: QUARTER@,
                    cells: CellsView::Text(converted_quarters(keys, rate_keys, keys.len())),
                },
                ColumnView {
                    name: metric + CONVERTED@,
                    cells: CellsView::Number(
                        converted_cells(keys, values, rate_keys, rates, keys.len()),
                    ),
                },
            ],
        )
    }
}

/// The converted table has as many cells as quarters.
pub proof fn converted_columns_agree(
    keys: Seq<Option<Seq<char>>>,
    values: Seq<Option<Formula>>,
    rate_keys: Seq<Option<Seq<char>>>,
    rates: Seq<Option<Formula>>,
    n: nat,
)
    ensures
        converted_quarters(keys, rate_keys, n).len() == converted_cells(
            keys,
            values,
            rate_keys,
            rates,
            n,
        ).len(),
    decreases n,
{
    if n > 0 {
        converted_columns_agree(keys, values, rate_keys, rates, (n - 1) as nat);
    }
}

/// Multiplies the metric of a table by the rate of its quarter. The result
/// has the columns `quarter` and the metric's name with `_converted` behind
/// it. A row whose quarter has no rate keeps its quarter and gets an empty
/// cell.
pub fn convert_table(table: &Table, rate_table: &Table, metric: &str) -> (result: Result<
    Table,
    PipelineError,
>)
    ensures
        outcome(result) == conversion(table@, rate_table@, metric@),
{
    let keys = match table.text_column(QUARTER) {
        Some(keys) => keys,
        None => {
            return Err(PipelineError::format(NO_QUARTERS));
        },
    };
    let values = match table.number_column(metric) {
        Some(values) => values,
        None => {
            return Err(PipelineError::format(NO_METRIC));
        },
    };
    let rate_keys = match rate_table.text_column(QUARTER) {
        Some(keys) => keys,
        None => {
            return Err(PipelineError::format(NO_RATE_QUARTERS));
        },
    };
    let rates = match rate_table.number_column(RATE) {
        Some(rates) => rates,
        None => {
            return Err(PipelineError::format(NO_RATE));
        },
    };
    let ghost kv = keys.deep_view();
    let ghost vv = values.deep_view();
    let ghost rkv = rate_keys.deep_view();
    let ghost rv = rates.deep_view();
    let mut quarters: Vec<Option<String>> = Vec::new();
    let mut cells: Vec<Option<Amount>> = Vec::new();
    assert(quarters.deep_view() =~= Seq::<Option<Seq<char>>>::empty());
    assert(cells.deep_view() =~= Seq::<Option<Formula>>::empty());
    let mut i: usize = 0;
    while i < keys.len()
        invariant
            i <= keys.len(),
            keys.len() == values.len(),
            rate_keys.len() == rates.len(),
            kv == keys.deep_view(),
            vv == values.deep_view(),
            rkv == rate_keys.deep_view(),
            rv == rates.deep_view(),
            quarters.deep_view() == converted_quarters(kv, rkv, i as nat),
            cells.deep_view() == converted_cells(kv, vv, rkv, rv, i as nat),
        decreases keys.len() - i,
    {
        let found = matching_rows(&keys[i], rate_keys);
        let ghost found_rows = key_matches(kv[i as int], rkv, rkv.len());
        let ghost quarters_before = quarters.deep_view();
        let ghost cells_before = cells.deep_view();
        assert(kv[i as int] == keys[i as int].deep_view());
        assert(vv[i as int] == values[i as int].deep_view());
        if found.len() == 0 {
            quarters.push(copy_text(&keys[i]));
            cells.push(None);
            assert(quarters.deep_view() =~= quarters_before + Seq::new(1, |k: int| kv[i as int]));
            assert(cells.deep_view() =~= cells_before + seq![None::<Formula>]);
        } else {
            let mut k: usize = 0;
            while k < found.len()
                invariant
                    k <= found.len(),
                    i < keys.len(),
                    keys.len() == values.len(),
                    rate_keys.len() == rates.len(),
                    kv == keys.deep_view(),
                    vv == values.deep_view(),
                    rkv == rate_keys.deep_view(),
                    rv == rates.deep_view(),
                    crate::frame::column::row_numbers(found@) == found_rows,
                    forall|x: int| 0 <= x < found.len() ==> found[x] < rate_keys.len(),
                    quarters.deep_view() == quarters_before + Seq::new(
                        k as nat,
                        |x: int| kv[i as int],
                    ),
                    cells.deep_view() == cells_before + Seq::new(
                        k as nat,
                        |x: int| product_formula(vv[i as int], rv[found_rows[x]]),
                    ),
                decreases found.len() - k,
            {
                let ghost q0 = quarters.deep_view();
                let ghost c0 = cells.deep_view();
                assert(found_rows[k as int] == found[k as int]);
                assert(rv[found[k as int] as int] == rates[found[k as int] as int].deep_view());
                quarters.push(copy_text(&keys[i]));
                let product = Amount::product_of(
                    copy_amount(&values[i]),
                    copy_amount(&rates[found[k]]),
                );
                cells.push(product);
                assert(quarters.deep_view() =~= q0.push(kv[i as int]));
                assert(cells.deep_view() =~= c0.push(
                    product_formula(vv[i as int], rv[found_rows[k as int]]),
                ));
                assert(quarters.deep_view() =~= quarters_before + Seq::new(
                    (k + 1) as nat,
                    |x: int| kv[i as int],
                ));
                assert(cells.deep_view() =~= cells_before + Seq::new(
                    (k + 1) as nat,
                    |x: int| product_formula(vv[i as int], rv[found_rows[x]]),
                ));
                k = k + 1;
            }
            assert(found.len() == found_rows.len());
        }
        i = i + 1;
    }
    let name = String::from_str(metric).concat(CONVERTED);
    proof {
        reveal_strlit("quarter");
        reveal_strlit("_converted");
        assert(QUARTER@ == "quarter"@);
        assert(CONVERTED@ == "_converted"@);
        assert(name@.len() == metric@.len() + 10);
        converted_columns_agree(kv, vv, rkv, rv, kv.len());
    }
    let mut columns: Vec<Column> = Vec::new();
    columns.push(Column::text(QUARTER, quarters));
    columns.push(Column { name, cells: crate::frame::column::Cells::Number(cells) });
    proof {
        let all = conversion(table@, rate_table@, metric@)->Ok_0;
        assert(columns.deep_view() =~= all);
        assert(height_of(all) == all[0].cells.len());
    }
    Ok(Table::assemble(columns))
}

} // verus!
