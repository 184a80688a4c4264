//! Joining two tables on a text column that both have.

use vstd::prelude::*;
use vstd::string::StringExecFns;
use crate::error::Fault;
use crate::error::PipelineError;
use crate::frame::column::row_numbers;
use crate::frame::column::Cells;
use crate::frame::column::CellsView;
use crate::frame::column::Column;
use crate::frame::column::ColumnView;
use crate::frame::rows::rows_taken;
use crate::frame::table::distinct_names;
use crate::frame::table::has_column;
use crate::frame::table::height_of;
use crate::frame::table::position_of;
use crate::frame::table::well_shaped;
use crate::frame::table::Table;
use crate::text::same_text;

verus! {

/// Whether a row with key `other` belongs to a row with key `key`. An empty
/// key belongs to no row.
pub open spec fn keys_agree(key: Option<Seq<char>>, other: Option<Seq<char>>) -> bool {
    key is Some && key == other
}

/// The rows of `keys` below `m` that belong to `key`, in ascending order.
pub open spec fn key_matches(key: Option<Seq<char>>, keys: Seq<Option<Seq<char>>>, m: nat) -> Seq<
    int,
>
    decreases m,
{
    if m == 0 {
        Seq::empty()
    } else if keys_agree(key, keys[m - 1]) {
        key_matches(key, keys, (m - 1) as nat).push(m - 1)
    } else {
        key_matches(key, keys, (m - 1) as nat)
    }
}

/// The left row of each pair of rows with one key, for the first `n` left
/// rows: left rows ascending, and for one left row the right rows ascending.
pub open spec fn left_rows(
    left_keys: Seq<Option<Seq<char>>>,
    right_keys: Seq<Option<Seq<char>>>,
    n: nat,
) -> Seq<int>
    decreases n,
{
    if n == 0 {
        Seq::empty()
    } else {
        left_rows(left_keys, right_keys, (n - 1) as nat) + Seq::new(
            key_matches(left_keys[n - 1], right_keys, right_keys.len()).len(),
            |k: int| n - 1,
        )
    }
}

/// The right row of each pair, in the order of `left_rows`.
pub open spec fn right_rows(
    left_keys: Seq<Option<Seq<char>>>,
    right_keys: Seq<Option<Seq<char>>>,
    n: nat,
) -> Seq<int>
    decreases n,
{
    if n == 0 {
        Seq::empty()
    } else {
        right_rows(left_keys, right_keys, (n - 1) as nat) + key_matches(
            left_keys[n - 1],
            right_keys,
            right_keys.len(),
        )
    }
}

/// The cells of a text column; none for a column of amounts.
pub open spec fn text_cells(column: ColumnView) -> Seq<Option<Seq<char>>> {
    match column.cells {
        CellsView::Text(cells) => cells,
        CellsView::Number(_) => Seq::empty(),
    }
}

/// The name under which a column of the right table enters the join: its
/// own, or with `_right` behind it where the left table has that name.
pub open spec fn joined_name(left: Seq<ColumnView>, name: Seq<char>) -> Seq<char> {
    if has_column(left, name) {
        name + "_right"@
    } else {
        name
    }
}

/// The columns of the inner join of `left` and `right` on `key`: those of
/// `left`, then those of `right` but for its key. There is one row for each
/// pair of a left and a right row with the same key.
pub open spec fn joined(left: Seq<ColumnView>, right: Seq<ColumnView>, key: Seq<char>) -> Seq<
    ColumnView,
> {
    let left_keys = text_cells(left[position_of(left, key)]);
    let right_keys = text_cells(right[position_of(right, key)]);
    let rest = right.remove(position_of(right, key));
    rows_taken(left, left_rows(left_keys, right_keys, left_keys.len())) + Seq::new(
        rest.len(),
        |c: int|
            ColumnView {
                name: joined_name(left, rest[c].name),
                cells: rest[c].cells.gather(right_rows(left_keys, right_keys, left_keys.len())),
            },
    )
}

/// Whether `left` and `right` can be joined on `key`: both have it as a text
/// column, and no two columns of the join share a name.
pub open spec fn can_join(left: Seq<ColumnView>, right: Seq<ColumnView>, key: Seq<char>) -> bool {
    &&& has_column(left, key)
    &&& has_column(right, key)
    &&& left[position_of(left, key)].cells is Text
    &&& right[position_of(right, key)].cells is Text
    &&& distinct_names(joined(left, right, key))
}

/// What is wrong where the left table lacks the key as a text column.
pub const NO_LEFT_KEY: &'static str = "the left table has no such text column";

/// What is wrong where the right table lacks the key as a text column.
pub const NO_RIGHT_KEY: &'static str = "the right table has no such text column";

/// What is wrong where two columns of the join share a name.
pub const SHARED_JOIN_NAME: &'static str = "two columns of the join share a name";

/// Whether the table has the key as a text column.
pub open spec fn has_key(columns: Seq<ColumnView>, key: Seq<char>) -> bool {
    has_column(columns, key) && columns[position_of(columns, key)].cells is Text
}

/// Why two tables cannot be joined: the left table is looked at first, then
/// the right one, then the names.
pub open spec fn join_fault(left: Seq<ColumnView>, right: Seq<ColumnView>, key: Seq<char>) -> Fault {
    if !has_key(left, key) {
        Fault::Join { reason: NO_LEFT_KEY@ }
    } else if !has_key(right, key) {
        Fault::Join { reason: NO_RIGHT_KEY@ }
    } else {
        Fault::Join { reason: SHARED_JOIN_NAME@ }
    }
}

/// Every pair is a pair of rows with one key.
pub proof fn pairs_agree(
    left_keys: Seq<Option<Seq<char>>>,
    right_keys: Seq<Option<Seq<char>>>,
    n: nat,
)
    requires
        n <= left_keys.len(),
    ensures
        left_rows(left_keys, right_keys, n).len() == right_rows(left_keys, right_keys, n).len(),
        forall|k: int|
            0 <= k < left_rows(left_keys, right_keys, n).len() ==> {
                let i = #[trigger] left_rows(left_keys, right_keys, n)[k];
                let j = right_rows(left_keys, right_keys, n)[k];
                0 <= i < n && 0 <= j < right_keys.len() && keys_agree(left_keys[i], right_keys[j])
            },
    decreases n,
{
    if n > 0 {
        pairs_agree(left_keys, right_keys, (n - 1) as nat);
        matches_agree(left_keys[n - 1], right_keys, right_keys.len());
    }
}

/// The rows that `key_matches` gives are those below `m` that belong to the
/// key, each once and in ascending order.
pub proof fn matches_agree(key: Option<Seq<char>>, keys: Seq<Option<Seq<char>>>, m: nat)
    ensures
        forall|k: int|
            0 <= k < key_matches(key, keys, m).len() ==> 0 <= (#[trigger] key_matches(
                key,
                keys,
                m,
            )[k]) < m && keys_agree(key, keys[key_matches(key, keys, m)[k]]),
        forall|a: int, b: int|
            0 <= a < b < key_matches(key, keys, m).len() ==> key_matches(key, keys, m)[a]
                < key_matches(key, keys, m)[b],
        forall|j: int|
            0 <= j < m && keys_agree(key, keys[j]) ==> key_matches(key, keys, m).contains(j),
    decreases m,
{
    if m > 0 {
        let before = key_matches(key, keys, (m - 1) as nat);
        let now = key_matches(key, keys, m);
        matches_agree(key, keys, (m - 1) as nat);
        assert forall|j: int| 0 <= j < m && keys_agree(key, keys[j]) implies now.contains(j) by {
            if j == m - 1 {
                assert(now[now.len() - 1] == j);
            } else {
                assert(before.contains(j));
                let k = choose|k: int| 0 <= k < before.len() && before[k] == j;
                assert(now[k] == j);
            }
        }
    }
}

/// Whether a row with key `other` belongs to a row with key `key`.
pub fn same_key(key: &Option<String>, other: &Option<String>) -> (agree: bool)
    ensures
        agree == keys_agree(key.deep_view(), other.deep_view()),
{
    match (key, other) {
        (Some(a), Some(b)) => same_text(a.as_str(), b.as_str()),
        _ => false,
    }
}

/// The rows of `keys` that belong to `key`, in ascending order.
pub fn matching_rows(key: &Option<String>, keys: &Vec<Option<String>>) -> (rows: Vec<usize>)
    ensures
        row_numbers(rows@) == key_matches(key.deep_view(), keys.deep_view(), keys.len() as nat),
        forall|k: int| 0 <= k < rows.len() ==> rows[k] < keys.len(),
{
    let mut rows: Vec<usize> = Vec::new();
    let mut j: usize = 0;
    while j < keys.len()
        invariant
            j <= keys.len(),
            row_numbers(rows@) == key_matches(key.deep_view(), keys.deep_view(), j as nat),
            forall|k: int| 0 <= k < rows.len() ==> rows[k] < j,
        decreases keys.len() - j,
    {
        let ghost before = row_numbers(rows@);
        if same_key(key, &keys[j]) {
            rows.push(j);
            assert(row_numbers(rows@) =~= before.push(j as int));
        }
        j = j + 1;
    }
    rows
}

impl Table {
    /// The text cells of the column `name`, where that is a text column.
    pub fn text_column(&self, name: &str) -> (found: Option<&Vec<Option<String>>>)
        ensures
            found is Some <==> has_column(self@, name@) && self@[position_of(
                self@,
                name@,
            )].cells is Text,
            found matches Some(cells) ==> cells.deep_view() == text_cells(
                self@[position_of(self@, name@)],
            ) && cells.len() == height_of(self@),
            well_shaped(self@),
    {
        match self.column(name) {
            Some(column) => match &column.cells {
                Cells::Text(cells) => {
                    assert(self@[position_of(self@, name@)].cells.len() == self@[0].cells.len());
                    Some(cells)
                },
                Cells::Number(_) => None,
            },
            None => None,
        }
    }

    /// The inner join of this table, as the left one, and `right` on the text
    /// column `key`.
    pub fn inner_join(&self, right: &Table, key: &str) -> (made: Result<Table, PipelineError>)
        ensures
            made is Ok <==> can_join(self@, right@, key@),
            made matches Ok(table) ==> table@ == joined(self@, right@, key@),
            made matches Err(error) ==> error@ == join_fault(self@, right@, key@),
    {
        let left_keys = match self.text_column(key) {
            Some(keys) => keys,
            None => {
                return Err(PipelineError::join(NO_LEFT_KEY));
            },
        };
        let right_keys = match right.text_column(key) {
            Some(keys) => keys,
            None => {
                return Err(PipelineError::join(NO_RIGHT_KEY));
            },
        };
        let right_columns = right.columns();
        let key_place = match right.position(key) {
            Some(place) => place,
            None => {
                return Err(PipelineError::join(NO_RIGHT_KEY));
            },
        };
        let ghost lk = left_keys.deep_view();
        let ghost rk = right_keys.deep_view();
        let mut lrows: Vec<usize> = Vec::new();
        let mut rrows: Vec<usize> = Vec::new();
        let mut i: usize = 0;
        while i < left_keys.len()
            invariant
                i <= left_keys.len(),
                lk == left_keys.deep_view(),
                rk == right_keys.deep_view(),
                row_numbers(lrows@) == left_rows(lk, rk, i as nat),
                row_numbers(rrows@) == right_rows(lk, rk, i as nat),
                lrows.len() == rrows.len(),
                forall|k: int| 0 <= k < lrows.len() ==> lrows[k] < i,
                forall|k: int| 0 <= k < rrows.len() ==> rrows[k] < right_keys.len(),
            decreases left_keys.len() - i,
        {
            let found = matching_rows(&left_keys[i], right_keys);
            let ghost lbefore = row_numbers(lrows@);
            let ghost rbefore = row_numbers(rrows@);
            let mut k: usize = 0;
            while k < found.len()
                invariant
                    k <= found.len(),
                    i < left_keys.len(),
                    lrows.len() == rrows.len(),
                    row_numbers(lrows@) == lbefore + Seq::new(k as nat, |x: int| i as int),
                    row_numbers(rrows@) == rbefore + row_numbers(found@).take(k as int),
                    forall|x: int| 0 <= x < found.len() ==> found[x] < right_keys.len(),
                    forall|x: int| 0 <= x < lrows.len() ==> lrows[x] <= i,
                    forall|x: int| 0 <= x < rrows.len() ==> rrows[x] < right_keys.len(),
                decreases found.len() - k,
            {
                let ghost l0 = row_numbers(lrows@);
                let ghost r0 = row_numbers(rrows@);
                lrows.push(i);
                rrows.push(found[k]);
                assert(row_numbers(lrows@) =~= l0.push(i as int));
                assert(row_numbers(rrows@) =~= r0.push(found[k as int] as int));
                assert(row_numbers(lrows@) =~= lbefore + Seq::new(
                    (k + 1) as nat,
                    |x: int| i as int,
                ));
                assert(row_numbers(rrows@) =~= rbefore + row_numbers(found@).take(k + 1));
                k = k + 1;
            }
            assert(row_numbers(found@).take(found.len() as int) =~= row_numbers(found@));
            assert(lk[i as int] == left_keys[i as int].deep_view());
            i = i + 1;
        }
        let ghost lspec = left_rows(lk, rk, lk.len());
        let ghost rspec = right_rows(lk, rk, lk.len());
        let mut columns = self.take(&lrows).into_columns();
        let ghost left_part = rows_taken(self@, lspec);
        let ghost rest = right@.remove(key_place as int);
        let mut c: usize = 0;
        while c < right_columns.len()
            invariant
                c <= right_columns.len(),
                key_place < right_columns.len(),
                right_columns.deep_view() == right@,
                well_shaped(right@),
                rk.len() == height_of(right@),
                row_numbers(rrows@) == rspec,
                forall|x: int| 0 <= x < rrows.len() ==> rrows[x] < right_keys.len(),
                rk == right_keys.deep_view(),
                rest == right@.remove(key_place as int),
                left_part.len() == self@.len(),
                columns.len() == left_part.len() + (if c <= key_place {
                    c as int
                } else {
                    c - 1
                }),
                forall|x: int| 0 <= x < left_part.len() ==> (#[trigger] columns[x])@ == left_part[x],
                forall|x: int|
                    left_part.len() <= x < columns.len() ==> (#[trigger] columns[x])@
                        == (ColumnView {
                        name: joined_name(self@, rest[x - left_part.len()].name),
                        cells: rest[x - left_part.len()].cells.gather(rspec),
                    }),
            decreases right_columns.len() - c,
        {
            if c != key_place {
                let column = &right_columns[c];
                assert(column@ == right@[c as int]);
                assert(right@[c as int].cells.len() == right@[0].cells.len());
                let cells = column.cells.gather(&rrows);
                let name = if self.position(column.name.as_str()).is_some() {
                    column.name.clone().concat("_right")
                } else {
                    column.name.clone()
                };
                assert(rest[columns.len() - left_part.len()] == right@[c as int]);
                columns.push(Column { name, cells });
            }
            c = c + 1;
        }
        proof {
            let all = joined(self@, right@, key@);
            pairs_agree(lk, rk, lk.len());
            assert(columns.deep_view() =~= all);
            assert forall|x: int| 0 <= x < all.len() implies (#[trigger] all[x]).cells.len()
                == all[0].cells.len() by {
                assert(all[x].cells.len() == lspec.len());
                assert(all[0].cells.len() == lspec.len());
            }
        }
        match Table::new(columns) {
            Ok(table) => Ok(table),
            Err(_) => Err(PipelineError::join(SHARED_JOIN_NAME)),
        }
    }
}

} // verus!
