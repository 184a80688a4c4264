//! The columns that the tables of the pipeline have, stage by stage.

use vstd::prelude::*;
use crate::frame::column::ColumnView;
use crate::frame::join::can_join;
use crate::frame::join::joined;
use crate::frame::join::left_rows;
use crate::frame::join::pairs_agree;
use crate::frame::join::right_rows;
use crate::frame::join::text_cells;
use crate::frame::names::after_rename;
use crate::frame::names::all_distinct;
use crate::frame::names::can_rename;
use crate::frame::rows::without_nulls;
use crate::frame::table::distinct_names;
use crate::frame::table::has_column;
use crate::frame::table::name_has_one_place;
use crate::frame::table::names_of;
use crate::frame::table::position_of;
use crate::frame::table::same_height;
use crate::frame::table::well_shaped;
use crate::transformer::normalize::has_number_column;
use crate::transformer::normalize::has_text_column;
use crate::transformer::normalize::joined_with;
use crate::transformer::normalize::QUARTER;

verus! {

/// Whether a table is a series: the text column `quarter` and a column of
/// amounts under the name `metric`, which is not `quarter`.
pub open spec fn is_series(table: Seq<ColumnView>, metric: Seq<char>) -> bool {
    &&& table.len() == 2
    &&& table[0].name == QUARTER@
    &&& table[0].cells is Text
    &&& table[1].name == metric
    &&& table[1].cells is Number
    &&& table[0].cells.len() == table[1].cells.len()
    &&& metric != QUARTER@
}

/// Whether a table is wide: the text column `quarter`, then one column for
/// each of the metrics, in order, all of one height.
pub open spec fn is_wide(table: Seq<ColumnView>, metrics: Seq<Seq<char>>) -> bool {
    &&& names_of(table) == seq![QUARTER@] + metrics
    &&& table[0].cells is Text
    &&& same_height(table)
}

/// A series has its two columns where it is asked for them.
pub proof fn series_has_its_columns(table: Seq<ColumnView>, metric: Seq<char>)
    requires
        is_series(table, metric),
    ensures
        well_shaped(table),
        has_text_column(table, QUARTER@),
        position_of(table, QUARTER@) == 0,
        has_number_column(table, metric),
        position_of(table, metric) == 1,
{
    assert(distinct_names(table)) by {
        assert forall|a: int, b: int| 0 <= a < b < table.len() implies (#[trigger] table[a]).name
            != (#[trigger] table[b]).name by {
            assert(a == 0 && b == 1);
        }
    }
    name_has_one_place(table, QUARTER@, 0);
    name_has_one_place(table, metric, 1);
}

/// A series is a wide table of one metric.
pub proof fn series_is_wide(table: Seq<ColumnView>, metric: Seq<char>)
    requires
        is_series(table, metric),
    ensures
        is_wide(table, seq![metric]),
{
    assert(names_of(table) =~= seq![QUARTER@] + seq![metric]);
}

/// A series that loses its incomplete rows is still a series.
pub proof fn series_stays_without_nulls(table: Seq<ColumnView>, metric: Seq<char>)
    requires
        is_series(table, metric),
    ensures
        is_series(without_nulls(table), metric),
{
}

/// Where the names of a wide table are distinct, its columns are found by
/// their names.
pub proof fn wide_table_is_shaped(table: Seq<ColumnView>, metrics: Seq<Seq<char>>)
    requires
        is_wide(table, metrics),
        all_distinct(seq![QUARTER@] + metrics),
    ensures
        table.len() == metrics.len() + 1,
        well_shaped(table),
        has_text_column(table, QUARTER@),
        position_of(table, QUARTER@) == 0,
        forall|i: int|
            0 <= i < metrics.len() ==> has_column(table, #[trigger] metrics[i]) && position_of(
                table,
                metrics[i],
            ) == i + 1,
        forall|name: Seq<char>|
            has_column(table, name) ==> name == QUARTER@ || metrics.contains(name),
{
    let names = seq![QUARTER@] + metrics;
    assert(names_of(table).len() == names.len());
    assert forall|c: int| 0 <= c < table.len() implies (#[trigger] table[c]).name == names[c] by {
        assert(names_of(table)[c] == table[c].name);
    }
    assert forall|a: int, b: int| 0 <= a < b < table.len() implies (#[trigger] table[a]).name != (
    #[trigger] table[b]).name by {
        assert(names[a] != names[b]);
    }
    name_has_one_place(table, QUARTER@, 0);
    assert forall|i: int| 0 <= i < metrics.len() implies has_column(table, #[trigger] metrics[i])
        && position_of(table, metrics[i]) == i + 1 by {
        assert(names[i + 1] == metrics[i]);
        name_has_one_place(table, metrics[i], i + 1);
    }
    assert forall|name: Seq<char>| has_column(table, name) implies name == QUARTER@
        || metrics.contains(name) by {
        let c = choose|c: int| 0 <= c < table.len() && (#[trigger] table[c]).name == name;
        if c > 0 {
            assert(names[c] == metrics[c - 1]);
        }
    }
}

/// Joining a series to a wide table that lacks its metric adds the metric
/// as the last column.
pub proof fn join_adds_a_column(
    wide: Seq<ColumnView>,
    metrics: Seq<Seq<char>>,
    series: Seq<ColumnView>,
    metric: Seq<char>,
)
    requires
        is_wide(wide, metrics),
        all_distinct(seq![QUARTER@] + metrics),
        is_series(series, metric),
        !metrics.contains(metric),
    ensures
        can_join(wide, series, QUARTER@),
        is_wide(joined(wide, series, QUARTER@), metrics.push(metric)),
        all_distinct(seq![QUARTER@] + metrics.push(metric)),
{
    wide_table_is_shaped(wide, metrics);
    series_has_its_columns(series, metric);
    let key = QUARTER@;
    let all = joined(wide, series, key);
    let left_keys = text_cells(wide[0]);
    let right_keys = text_cells(series[0]);
    let lrows = left_rows(left_keys, right_keys, left_keys.len());
    let rrows = right_rows(left_keys, right_keys, left_keys.len());
    pairs_agree(left_keys, right_keys, left_keys.len());
    let rest = series.remove(0);
    assert(rest =~= seq![series[1]]);
    assert(!has_column(wide, metric));
    let names = seq![QUARTER@] + metrics;
    let longer = seq![QUARTER@] + metrics.push(metric);
    assert(all.len() == wide.len() + 1);
    assert(names_of(all) =~= longer) by {
        assert forall|c: int| 0 <= c < all.len() implies names_of(all)[c] == longer[c] by {
            if c < wide.len() {
                assert(all[c].name == wide[c].name);
                assert(names_of(wide)[c] == wide[c].name);
                assert(names[c] == longer[c]);
            } else {
                assert(all[c].name == metric);
            }
        }
    }
    assert forall|a: int, b: int| 0 <= a < b < longer.len() implies longer[a] != longer[b] by {
        if b < names.len() {
            assert(names[a] != names[b]);
        } else if a == 0 {
        } else {
            assert(metrics[a - 1] == longer[a]);
        }
    }
    assert forall|a: int, b: int| 0 <= a < b < all.len() implies (#[trigger] all[a]).name != (
    #[trigger] all[b]).name by {
        assert(names_of(all)[a] == all[a].name);
        assert(names_of(all)[b] == all[b].name);
        assert(longer[a] != longer[b]);
    }
    assert forall|c: int| 0 <= c < all.len() implies (#[trigger] all[c]).cells.len()
        == all[0].cells.len() by {
        assert(all[c].cells.len() == lrows.len());
        assert(all[0].cells.len() == lrows.len());
    }
}

/// A wide table whose column `old` gets the name `new`, which it does not
/// have yet, is a wide table of the metrics with `new` in the place of `old`.
pub proof fn rename_keeps_the_table_wide(
    wide: Seq<ColumnView>,
    metrics: Seq<Seq<char>>,
    place: int,
    new: Seq<char>,
)
    requires
        is_wide(wide, metrics),
        all_distinct(seq![QUARTER@] + metrics),
        0 <= place < metrics.len(),
        new != QUARTER@,
        !metrics.contains(new),
    ensures
        can_rename(wide, metrics[place], new),
        is_wide(after_rename(wide, metrics[place], new), metrics.update(place, new)),
        all_distinct(seq![QUARTER@] + metrics.update(place, new)),
{
    wide_table_is_shaped(wide, metrics);
    let old = metrics[place];
    assert(metrics.contains(old));
    assert(old != new);
    assert(!has_column(wide, new));
    let after = after_rename(wide, old, new);
    let names = seq![QUARTER@] + metrics;
    let changed = seq![QUARTER@] + metrics.update(place, new);
    assert(names_of(after) =~= changed) by {
        assert forall|c: int| 0 <= c < after.len() implies names_of(after)[c] == changed[c] by {
            assert(names_of(wide)[c] == wide[c].name);
            assert(names[c] == names_of(wide)[c]);
        }
    }
    assert forall|a: int, b: int| 0 <= a < b < changed.len() implies changed[a] != changed[b] by {
        assert(names[a] != names[b]);
        if a > 0 {
            assert(metrics[a - 1] == names[a]);
        }
        assert(metrics[b - 1] == names[b]);
    }
    assert forall|c: int| 0 <= c < after.len() implies (#[trigger] after[c]).cells.len()
        == after[0].cells.len() by {
        assert(wide[c].cells.len() == wide[0].cells.len());
    }
}

/// The last of some series joined with the first `n` of them is a wide
/// table: the metric of the last, then those of the first `n` in order.
pub proof fn joining_series_gives_a_wide_table(
    tables: Seq<Seq<ColumnView>>,
    metrics: Seq<Seq<char>>,
    n: nat,
)
    requires
        tables.len() == metrics.len(),
        n < tables.len(),
        forall|i: int| 0 <= i < tables.len() ==> is_series(#[trigger] tables[i], metrics[i]),
        forall|i: int, j: int| 0 <= i < j < metrics.len() ==> metrics[i] != metrics[j],
    ensures
        joined_with(tables, n) is Ok,
        is_wide(joined_with(tables, n)->Ok_0, seq![metrics.last()] + metrics.take(n as int)),
        all_distinct(seq![QUARTER@] + (seq![metrics.last()] + metrics.take(n as int))),
    decreases n,
{
    let last = metrics.last();
    if n == 0 {
        series_is_wide(tables.last(), last);
        assert(seq![last] + metrics.take(0) =~= seq![last]);
        let names = seq![QUARTER@] + seq![last];
        assert forall|a: int, b: int| 0 <= a < b < names.len() implies names[a] != names[b] by {
            assert(a == 0 && b == 1);
        }
    } else {
        joining_series_gives_a_wide_table(tables, metrics, (n - 1) as nat);
        let so_far = joined_with(tables, (n - 1) as nat)->Ok_0;
        let before = seq![last] + metrics.take(n - 1);
        let metric = metrics[n - 1];
        assert(!before.contains(metric)) by {
            if before.contains(metric) {
                let k = choose|k: int| 0 <= k < before.len() && before[k] == metric;
                if k == 0 {
                    assert(metrics[n - 1] != metrics[metrics.len() - 1]);
                } else {
                    assert(before[k] == metrics[k - 1]);
                    assert(metrics[k - 1] != metrics[n - 1]);
                }
            }
        }
        join_adds_a_column(so_far, before, tables[n - 1], metric);
        assert(before.push(metric) =~= seq![last] + metrics.take(n as int));
    }
}

} // verus!
