//! What holds of the transforms whatever the tables are.

use vstd::prelude::*;
use crate::frame::amount::mean_of_one_is_its_member;
use crate::frame::amount::Formula;
use crate::frame::column::CellsView;
use crate::frame::column::ColumnView;
use crate::frame::join::can_join;
use crate::frame::join::joined;
use crate::frame::join::key_matches;
use crate::frame::join::keys_agree;
use crate::frame::join::left_rows;
use crate::frame::join::matches_agree;
use crate::frame::join::pairs_agree;
use crate::frame::join::right_rows;
use crate::frame::join::text_cells;
use crate::frame::table::height_of;
use crate::frame::table::name_has_one_place;
use crate::frame::table::same_height;
use crate::frame::table::position_of;
use crate::transformer::calendar::calendar_fields;
use crate::transformer::normalize::averaged;
use crate::transformer::normalize::labels_of;
use crate::transformer::normalize::quarterly_average;
use crate::transformer::normalize::distinct_labels;
use crate::transformer::normalize::group_members;
use crate::transformer::normalize::has_text_column;
use crate::transformer::normalize::joined_with;
use crate::transformer::normalize::number_cells;
use crate::transformer::normalize::QUARTER;

verus! {

/// The labels are listed each once, and they are the labels of the rows.
pub proof fn labels_are_listed_once(labels: Seq<Option<Seq<char>>>, n: nat)
    requires
        n <= labels.len(),
    ensures
        forall|a: int, b: int|
            0 <= a < b < distinct_labels(labels, n).len() ==> distinct_labels(labels, n)[a]
                != distinct_labels(labels, n)[b],
        forall|label: Seq<char>|
            distinct_labels(labels, n).contains(label) <==> exists|i: int|
                0 <= i < n && labels[i] == Some(label),
    decreases n,
{
    if n > 0 {
        let before = distinct_labels(labels, (n - 1) as nat);
        let now = distinct_labels(labels, n);
        labels_are_listed_once(labels, (n - 1) as nat);
        assert forall|label: Seq<char>| now.contains(label) implies exists|i: int|
            0 <= i < n && labels[i] == Some(label) by {
            let k = choose|k: int| 0 <= k < now.len() && now[k] == label;
            if k < before.len() {
                assert(before[k] == label);
                assert(before.contains(label));
                let i = choose|i: int| 0 <= i < n - 1 && labels[i] == Some(label);
                assert(0 <= i < n && labels[i] == Some(label));
            } else {
                assert(labels[n - 1] == Some(label));
            }
        }
        assert forall|label: Seq<char>|
            (exists|i: int| 0 <= i < n && labels[i] == Some(label)) implies now.contains(label) by {
            let i = choose|i: int| 0 <= i < n && labels[i] == Some(label);
            if i < n - 1 {
                assert(before.contains(label));
                let k = choose|k: int| 0 <= k < before.len() && before[k] == label;
                assert(now[k] == label);
            } else if before.contains(label) {
                let k = choose|k: int| 0 <= k < before.len() && before[k] == label;
                assert(now[k] == label);
            } else {
                assert(now[now.len() - 1] == label);
            }
        }
    }
}

/// The cell of a table of quarters when it is averaged again: the mean of
/// the one value of its row, or empty where the row has none.
pub open spec fn mean_of_one(value: Option<Formula>) -> Option<Formula> {
    match value {
        Some(v) => Some(Formula::Mean(seq![v])),
        None => None,
    }
}

/// For rows that each have a label of their own, the first `n` labels are
/// listed as they stand, and each has the value of its row as its one
/// member.
proof fn groups_of_one(labels: Seq<Option<Seq<char>>>, values: Seq<Option<Formula>>, n: nat)
    requires
        n <= labels.len(),
        labels.len() == values.len(),
        forall|i: int| 0 <= i < labels.len() ==> labels[i] is Some,
        forall|i: int, j: int| 0 <= i < j < labels.len() ==> labels[i] != labels[j],
    ensures
        distinct_labels(labels, n) == Seq::new(n, |i: int| labels[i]->0),
        forall|i: int|
            0 <= i < labels.len() ==> #[trigger] group_members(labels, values, labels[i]->0, n)
                == (if i < n && values[i] is Some {
                seq![values[i]->0]
            } else {
                Seq::empty()
            }),
    decreases n,
{
    if n > 0 {
        groups_of_one(labels, values, (n - 1) as nat);
        let before = distinct_labels(labels, (n - 1) as nat);
        let last = labels[n - 1]->0;
        if before.contains(last) {
            let k = choose|k: int| 0 <= k < before.len() && before[k] == last;
            assert(labels[k] != labels[n - 1]);
        }
        assert(distinct_labels(labels, n) =~= Seq::new(n, |i: int| labels[i]->0));
        assert forall|i: int| 0 <= i < labels.len() implies #[trigger] group_members(
            labels,
            values,
            labels[i]->0,
            n,
        ) == (if i < n && values[i] is Some {
            seq![values[i]->0]
        } else {
            Seq::empty()
        }) by {
            let earlier = group_members(labels, values, labels[i]->0, (n - 1) as nat);
            if i == n - 1 {
                if values[i] is Some {
                    assert(earlier.push(values[i]->0) =~= seq![values[i]->0]);
                }
            } else {
                if i < n - 1 {
                    assert(labels[i] != labels[n - 1]);
                } else {
                    assert(labels[n - 1] != labels[i]);
                }
            }
        }
    }
}

/// Averaging a table that already has one row for each quarter changes
/// nothing: the quarters come out as they went in, in the same order, and the
/// cell of each is the mean of the one value of its row.
pub proof fn averaging_quarters_again_keeps_them(
    labels: Seq<Option<Seq<char>>>,
    values: Seq<Option<Formula>>,
    alias: Seq<char>,
)
    requires
        labels.len() == values.len(),
        forall|i: int| 0 <= i < labels.len() ==> labels[i] is Some,
        forall|i: int, j: int| 0 <= i < j < labels.len() ==> labels[i] != labels[j],
    ensures
        averaged(labels, values, alias)[0].cells == CellsView::Text(labels),
        averaged(labels, values, alias)[1].cells == CellsView::Number(
            Seq::new(labels.len(), |i: int| mean_of_one(values[i])),
        ),
{
    groups_of_one(labels, values, labels.len());
    let table = averaged(labels, values, alias);
    assert(table[0].cells->Text_0 =~= labels);
    assert(table[1].cells->Number_0 =~= Seq::new(labels.len(), |i: int| mean_of_one(values[i])));
}

/// Averaging a table that already has one row for each quarter leaves each
/// value as it is, in exact arithmetic: the mean of one value is that value.
pub proof fn averaging_quarters_again_keeps_values(
    labels: Seq<Option<Seq<char>>>,
    values: Seq<Option<Formula>>,
    alias: Seq<char>,
    reading: spec_fn(Seq<char>) -> real,
    row: int,
)
    requires
        labels.len() == values.len(),
        forall|i: int| 0 <= i < labels.len() ==> labels[i] is Some,
        forall|i: int, j: int| 0 <= i < j < labels.len() ==> labels[i] != labels[j],
        0 <= row < labels.len(),
    ensures
        number_cells(averaged(labels, values, alias)[1])[row] is Some <==> values[row] is Some,
        values[row] is Some ==> number_cells(averaged(labels, values, alias)[1])[row]->0.value(
            reading,
        ) == values[row]->0.value(reading),
{
    averaging_quarters_again_keeps_them(labels, values, alias);
    if values[row] is Some {
        mean_of_one_is_its_member(values[row]->0, reading);
    }
}

/// The labels of the rows of a table whose dates are read under a mask.
pub open spec fn row_labels(
    columns: Seq<ColumnView>,
    date_column_name: Seq<char>,
    date_format_mask: Seq<char>,
) -> Seq<Option<Seq<char>>> {
    labels_of(
        calendar_fields(
            text_cells(columns[position_of(columns, date_column_name)]),
            date_format_mask,
        )->0,
    )
}

/// Bucketing a table that already has one row for each quarter changes
/// nothing: where every date is read, no two rows fall in one quarter and
/// the table is averaged without failure, the result has a row for each row
/// of the table, in the same order, with the label of its date and, in exact
/// arithmetic, with its value.
pub proof fn bucketing_quarters_again_keeps_the_rows(
    columns: Seq<ColumnView>,
    date_column_name: Seq<char>,
    target_column_name: Seq<char>,
    target_column_alias: Seq<char>,
    date_format_mask: Seq<char>,
    reading: spec_fn(Seq<char>) -> real,
    row: int,
)
    requires
        quarterly_average(
            columns,
            date_column_name,
            target_column_name,
            target_column_alias,
            date_format_mask,
        ) is Ok,
        row_labels(columns, date_column_name, date_format_mask).len() == number_cells(
            columns[position_of(columns, target_column_name)],
        ).len(),
        forall|i: int|
            0 <= i < row_labels(columns, date_column_name, date_format_mask).len() ==> row_labels(
                columns,
                date_column_name,
                date_format_mask,
            )[i] is Some,
        forall|i: int, j: int|
            0 <= i < j < row_labels(columns, date_column_name, date_format_mask).len()
                ==> row_labels(columns, date_column_name, date_format_mask)[i] != row_labels(
                columns,
                date_column_name,
                date_format_mask,
            )[j],
        0 <= row < row_labels(columns, date_column_name, date_format_mask).len(),
    ensures
        ({
            let table = quarterly_average(
                columns,
                date_column_name,
                target_column_name,
                target_column_alias,
                date_format_mask,
            )->Ok_0;
            let labels = row_labels(columns, date_column_name, date_format_mask);
            let values = number_cells(columns[position_of(columns, target_column_name)]);
            &&& text_cells(table[0]) == labels
            &&& number_cells(table[1]).len() == labels.len()
            &&& number_cells(table[1])[row] is Some <==> values[row] is Some
            &&& values[row] is Some ==> number_cells(table[1])[row]->0.value(reading)
                == values[row]->0.value(reading)
        }),
{
    let labels = row_labels(columns, date_column_name, date_format_mask);
    let values = number_cells(columns[position_of(columns, target_column_name)]);
    averaging_quarters_again_keeps_them(labels, values, target_column_alias);
    averaging_quarters_again_keeps_values(labels, values, target_column_alias, reading, row);
}

/// The quarters of a table: the texts of its column `quarter`. A table
/// without that text column has none.
pub open spec fn quarters_in(columns: Seq<ColumnView>) -> Set<Seq<char>> {
    if has_text_column(columns, QUARTER@) {
        Set::new(
            |quarter: Seq<char>|
                text_cells(columns[position_of(columns, QUARTER@)]).contains(Some(quarter)),
        )
    } else {
        Set::empty()
    }
}

/// Each pair of a left row among the first `n` and a right row with the same
/// key is a row of the join.
pub proof fn every_pair_is_joined(
    left_keys: Seq<Option<Seq<char>>>,
    right_keys: Seq<Option<Seq<char>>>,
    n: nat,
    i: int,
    j: int,
)
    requires
        0 <= i < n <= left_keys.len(),
        0 <= j < right_keys.len(),
        keys_agree(left_keys[i], right_keys[j]),
    ensures
        left_rows(left_keys, right_keys, n).len() == right_rows(left_keys, right_keys, n).len(),
        exists|k: int|
            0 <= k < left_rows(left_keys, right_keys, n).len() && left_rows(
                left_keys,
                right_keys,
                n,
            )[k] == i && right_rows(left_keys, right_keys, n)[k] == j,
    decreases n,
{
    pairs_agree(left_keys, right_keys, n);
    pairs_agree(left_keys, right_keys, (n - 1) as nat);
    let before_left = left_rows(left_keys, right_keys, (n - 1) as nat);
    let before_right = right_rows(left_keys, right_keys, (n - 1) as nat);
    let found = key_matches(left_keys[n - 1], right_keys, right_keys.len());
    if i < n - 1 {
        every_pair_is_joined(left_keys, right_keys, (n - 1) as nat, i, j);
        let k = choose|k: int|
            0 <= k < before_left.len() && before_left[k] == i && before_right[k] == j;
        assert(left_rows(left_keys, right_keys, n)[k] == i);
        assert(right_rows(left_keys, right_keys, n)[k] == j);
    } else {
        matches_agree(left_keys[n - 1], right_keys, right_keys.len());
        assert(found.contains(j));
        let m = choose|m: int| 0 <= m < found.len() && found[m] == j;
        let k = before_left.len() + m;
        assert(left_rows(left_keys, right_keys, n)[k] == i);
        assert(right_rows(left_keys, right_keys, n)[k] == j);
    }
}

/// The join of two tables on the quarter holds exactly the quarters that
/// both have.
pub proof fn join_keeps_common_quarters(left: Seq<ColumnView>, right: Seq<ColumnView>)
    requires
        can_join(left, right, QUARTER@),
    ensures
        has_text_column(joined(left, right, QUARTER@), QUARTER@),
        quarters_in(joined(left, right, QUARTER@)) == quarters_in(left).intersect(
            quarters_in(right),
        ),
{
    let key = QUARTER@;
    let all = joined(left, right, key);
    let place = position_of(left, key);
    let left_keys = text_cells(left[place]);
    let right_keys = text_cells(right[position_of(right, key)]);
    let lrows = left_rows(left_keys, right_keys, left_keys.len());
    let rrows = right_rows(left_keys, right_keys, left_keys.len());
    assert(all[place].name == key);
    name_has_one_place(all, key, place);
    pairs_agree(left_keys, right_keys, left_keys.len());
    let keys = text_cells(all[place]);
    assert(keys =~= Seq::new(lrows.len(), |k: int| left_keys[lrows[k]]));
    assert forall|quarter: Seq<char>| quarters_in(all).contains(quarter) implies quarters_in(
        left,
    ).contains(quarter) && quarters_in(right).contains(quarter) by {
        let k = choose|k: int| 0 <= k < keys.len() && keys[k] == Some(quarter);
        let i = lrows[k];
        let j = rrows[k];
        assert(left_keys[i] == Some(quarter));
        assert(right_keys[j] == Some(quarter));
    }
    assert forall|quarter: Seq<char>|
        quarters_in(left).contains(quarter) && quarters_in(right).contains(
            quarter,
        ) implies quarters_in(all).contains(quarter) by {
        let i = choose|i: int| 0 <= i < left_keys.len() && left_keys[i] == Some(quarter);
        let j = choose|j: int| 0 <= j < right_keys.len() && right_keys[j] == Some(quarter);
        every_pair_is_joined(left_keys, right_keys, left_keys.len(), i, j);
        let k = choose|k: int| 0 <= k < lrows.len() && lrows[k] == i && rrows[k] == j;
        assert(keys[k] == Some(quarter));
    }
    assert(quarters_in(all) =~= quarters_in(left).intersect(quarters_in(right)));
}

/// The wide table holds a quarter if and only if every table that was
/// joined has it.
pub proof fn wide_table_keeps_common_quarters(
    tables: Seq<Seq<ColumnView>>,
    n: nat,
    quarter: Seq<char>,
)
    requires
        n < tables.len(),
        joined_with(tables, n) is Ok,
    ensures
        quarters_in(joined_with(tables, n)->Ok_0).contains(quarter) <==> quarters_in(
            tables.last(),
        ).contains(quarter) && forall|i: int|
            0 <= i < n ==> quarters_in(#[trigger] tables[i]).contains(quarter),
    decreases n,
{
    if n > 0 {
        assert(joined_with(tables, (n - 1) as nat) is Ok);
        let so_far = joined_with(tables, (n - 1) as nat)->Ok_0;
        wide_table_keeps_common_quarters(tables, (n - 1) as nat, quarter);
        join_keeps_common_quarters(so_far, tables[n - 1]);
    }
}

/// A failure of the join of all tables is a failure of the join.
pub proof fn joining_fails_as_a_join(tables: Seq<Seq<ColumnView>>, n: nat)
    requires
        joined_with(tables, n) is Err,
    ensures
        joined_with(tables, n)->Err_0 is Join,
    decreases n,
{
    if n > 0 && joined_with(tables, (n - 1) as nat) is Err {
        joining_fails_as_a_join(tables, (n - 1) as nat);
    }
}

/// Whether every row has a key and no two rows have the same.
pub open spec fn are_unique(keys: Seq<Option<Seq<char>>>) -> bool {
    &&& forall|i: int| 0 <= i < keys.len() ==> (#[trigger] keys[i]) is Some
    &&& forall|i: int, j: int| 0 <= i < j < keys.len() ==> keys[i] != keys[j]
}

/// Whether a table has the text column `quarter`, with a quarter in every
/// row and no quarter twice.
pub open spec fn has_each_quarter_once(columns: Seq<ColumnView>) -> bool {
    has_text_column(columns, QUARTER@) && are_unique(
        text_cells(columns[position_of(columns, QUARTER@)]),
    )
}

/// Among keys of which no two are the same, at most one row belongs to a
/// key.
pub proof fn at_most_one_row_matches(key: Option<Seq<char>>, keys: Seq<Option<Seq<char>>>, m: nat)
    requires
        are_unique(keys),
        m <= keys.len(),
    ensures
        key_matches(key, keys, m).len() <= 1,
    decreases m,
{
    if m > 0 {
        at_most_one_row_matches(key, keys, (m - 1) as nat);
        matches_agree(key, keys, (m - 1) as nat);
        let before = key_matches(key, keys, (m - 1) as nat);
        if before.len() == 1 && keys_agree(key, keys[m - 1]) {
            let k = before[0];
            assert(keys[k] != keys[m - 1]);
        }
    }
}

/// Where no two right rows have the same key, the left rows of the pairs
/// ascend: no left row is paired twice.
pub proof fn left_rows_ascend(
    left_keys: Seq<Option<Seq<char>>>,
    right_keys: Seq<Option<Seq<char>>>,
    n: nat,
)
    requires
        are_unique(right_keys),
        n <= left_keys.len(),
    ensures
        forall|a: int, b: int|
            0 <= a < b < left_rows(left_keys, right_keys, n).len() ==> left_rows(
                left_keys,
                right_keys,
                n,
            )[a] < left_rows(left_keys, right_keys, n)[b],
    decreases n,
{
    if n > 0 {
        left_rows_ascend(left_keys, right_keys, (n - 1) as nat);
        pairs_agree(left_keys, right_keys, (n - 1) as nat);
        at_most_one_row_matches(left_keys[n - 1], right_keys, right_keys.len());
        let before = left_rows(left_keys, right_keys, (n - 1) as nat);
        let now = left_rows(left_keys, right_keys, n);
        assert forall|a: int, b: int| 0 <= a < b < now.len() implies now[a] < now[b] by {
            if b < before.len() {
                assert(now[a] == before[a] && now[b] == before[b]);
            } else {
                assert(now[b] == n - 1);
                assert(now[a] == before[a]);
            }
        }
    }
}

/// The join of two tables that each have every quarter once has every
/// quarter once.
pub proof fn join_keeps_each_quarter_once(left: Seq<ColumnView>, right: Seq<ColumnView>)
    requires
        can_join(left, right, QUARTER@),
        has_each_quarter_once(left),
        has_each_quarter_once(right),
    ensures
        has_each_quarter_once(joined(left, right, QUARTER@)),
{
    let key = QUARTER@;
    let all = joined(left, right, key);
    let place = position_of(left, key);
    let left_keys = text_cells(left[place]);
    let right_keys = text_cells(right[position_of(right, key)]);
    let lrows = left_rows(left_keys, right_keys, left_keys.len());
    assert(all[place].name == key);
    name_has_one_place(all, key, place);
    pairs_agree(left_keys, right_keys, left_keys.len());
    left_rows_ascend(left_keys, right_keys, left_keys.len());
    let keys = text_cells(all[place]);
    assert(keys =~= Seq::new(lrows.len(), |k: int| left_keys[lrows[k]]));
    assert forall|i: int, j: int| 0 <= i < j < keys.len() implies keys[i] != keys[j] by {
        assert(lrows[i] < lrows[j]);
        assert(left_keys[lrows[i]] != left_keys[lrows[j]]);
    }
}

/// Where every table that is joined has every quarter once, so has the wide
/// table: no quarter comes twice.
pub proof fn wide_table_has_each_quarter_once(tables: Seq<Seq<ColumnView>>, n: nat)
    requires
        n < tables.len(),
        joined_with(tables, n) is Ok,
        forall|i: int| 0 <= i < tables.len() ==> has_each_quarter_once(#[trigger] tables[i]),
    ensures
        has_each_quarter_once(joined_with(tables, n)->Ok_0),
    decreases n,
{
    if n > 0 {
        assert(joined_with(tables, (n - 1) as nat) is Ok);
        wide_table_has_each_quarter_once(tables, (n - 1) as nat);
        join_keeps_each_quarter_once(joined_with(tables, (n - 1) as nat)->Ok_0, tables[n - 1]);
    }
}

/// A table that has every quarter once has as many rows as quarters.
pub proof fn rows_are_as_many_as_quarters(columns: Seq<ColumnView>)
    requires
        has_each_quarter_once(columns),
    ensures
        quarters_in(columns).finite(),
        quarters_in(columns).len() == text_cells(columns[position_of(columns, QUARTER@)]).len(),
        same_height(columns) ==> height_of(columns) == quarters_in(columns).len(),
{
    let keys = text_cells(columns[position_of(columns, QUARTER@)]);
    let quarters = Seq::new(keys.len(), |i: int| keys[i]->0);
    assert forall|i: int, j: int|
        0 <= i < quarters.len() && 0 <= j < quarters.len() && i != j implies quarters[i]
        != quarters[j] by {
        if i < j {
            assert(keys[i] != keys[j]);
        } else {
            assert(keys[j] != keys[i]);
        }
    }
    quarters.unique_seq_to_set();
    vstd::seq_lib::seq_to_set_is_finite(quarters);
    assert forall|quarter: Seq<char>| quarters_in(columns).contains(quarter) implies quarters.to_set(
    ).contains(quarter) by {
        let i = choose|i: int| 0 <= i < keys.len() && keys[i] == Some(quarter);
        assert(quarters[i] == quarter);
    }
    assert forall|quarter: Seq<char>| quarters.to_set().contains(quarter) implies quarters_in(
        columns,
    ).contains(quarter) by {
        let i = choose|i: int| 0 <= i < quarters.len() && quarters[i] == quarter;
        assert(keys[i] == Some(quarter));
    }
    assert(quarters_in(columns) =~= quarters.to_set());
    if same_height(columns) {
        assert(columns[position_of(columns, QUARTER@)].cells.len() == columns[0].cells.len());
    }
}

} // verus!
