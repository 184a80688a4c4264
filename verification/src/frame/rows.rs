//! Choosing rows of a table.

use vstd::prelude::*;
use crate::frame::column::row_numbers;
use crate::frame::column::Column;
use crate::frame::column::ColumnView;
use crate::frame::table::height_of;
use crate::frame::table::well_shaped;
use crate::frame::table::Table;

verus! {

/// The columns cut down to the given rows, in the order of the rows.
pub open spec fn rows_taken(columns: Seq<ColumnView>, rows: Seq<int>) -> Seq<ColumnView> {
    Seq::new(
        columns.len(),
        |c: int| ColumnView { name: columns[c].name, cells: columns[c].cells.gather(rows) },
    )
}

/// Whether no column is empty at `row`.
pub open spec fn row_is_complete(columns: Seq<ColumnView>, row: int) -> bool {
    forall|c: int| 0 <= c < columns.len() ==> !(#[trigger] columns[c]).cells.is_null(row)
}

/// The complete rows among the first `n`, in ascending order.
pub open spec fn complete_rows(columns: Seq<ColumnView>, n: nat) -> Seq<int>
    decreases n,
{
    if n == 0 {
        Seq::empty()
    } else if row_is_complete(columns, n - 1) {
        complete_rows(columns, (n - 1) as nat).push(n - 1)
    } else {
        complete_rows(columns, (n - 1) as nat)
    }
}

/// The columns without the rows in which a cell is empty.
pub open spec fn without_nulls(columns: Seq<ColumnView>) -> Seq<ColumnView> {
    rows_taken(columns, complete_rows(columns, height_of(columns)))
}

/// The complete rows are the rows below `n` in which no cell is empty, each
/// once and in ascending order.
pub proof fn complete_rows_are_exact(columns: Seq<ColumnView>, n: nat)
    ensures
        forall|k: int|
            0 <= k < complete_rows(columns, n).len() ==> 0 <= (#[trigger] complete_rows(
                columns,
                n,
            )[k]) < n && row_is_complete(columns, complete_rows(columns, n)[k]),
        forall|j: int, k: int|
            0 <= j < k < complete_rows(columns, n).len() ==> complete_rows(columns, n)[j]
                < complete_rows(columns, n)[k],
        forall|row: int|
            0 <= row < n && row_is_complete(columns, row) ==> complete_rows(columns, n).contains(
                row,
            ),
    decreases n,
{
    if n > 0 {
        let before = complete_rows(columns, (n - 1) as nat);
        let now = complete_rows(columns, n);
        complete_rows_are_exact(columns, (n - 1) as nat);
        assert forall|row: int| 0 <= row < n && row_is_complete(columns, row) implies now.contains(
            row,
        ) by {
            if row == n - 1 {
                assert(now[now.len() - 1] == row);
            } else {
                assert(before.contains(row));
                let k = choose|k: int| 0 <= k < before.len() && before[k] == row;
                assert(now[k] == row);
            }
        }
    }
}

impl Table {
    /// The table cut down to the given rows, in the order of the rows.
    pub fn take(&self, rows: &Vec<usize>) -> (table: Table)
        requires
            forall|k: int| 0 <= k < rows.len() ==> rows[k] < height_of(self@),
        ensures
            table@ == rows_taken(self@, row_numbers(rows@)),
    {
        let columns = self.columns();
        let mut taken: Vec<Column> = Vec::new();
        let mut c: usize = 0;
        while c < columns.len()
            invariant
                c <= columns.len(),
                taken.len() == c,
                columns.deep_view() == self@,
                well_shaped(self@),
                forall|k: int| 0 <= k < rows.len() ==> rows[k] < height_of(self@),
                forall|k: int|
                    0 <= k < c ==> (#[trigger] taken[k])@ == (ColumnView {
                        name: self@[k].name,
                        cells: self@[k].cells.gather(row_numbers(rows@)),
                    }),
            decreases columns.len() - c,
        {
            assert(self@[c as int].cells.len() == self@[0].cells.len());
            assert(columns[c as int]@ == self@[c as int]);
            let cells = columns[c].cells.gather(rows);
            taken.push(Column { name: columns[c].name.clone(), cells });
            c = c + 1;
        }
        proof {
            let after = rows_taken(self@, row_numbers(rows@));
            assert(taken.deep_view() =~= after);
            assert forall|k: int| 0 <= k < after.len() implies (#[trigger] after[k]).cells.len()
                == after[0].cells.len() by {
                assert(after[k].cells.len() == rows.len());
                assert(after[0].cells.len() == rows.len());
            }
            assert forall|a: int, b: int| 0 <= a < b < after.len() implies (#[trigger] after[a]).name
                != (#[trigger] after[b]).name by {
                assert(self@[a].name != self@[b].name);
            }
        }
        Table::assemble(taken)
    }

    /// Whether no column is empty at `row`.
    pub fn row_is_complete(&self, row: usize) -> (complete: bool)
        requires
            row < height_of(self@),
        ensures
            complete == row_is_complete(self@, row as int),
    {
        let columns = self.columns();
        let mut c: usize = 0;
        while c < columns.len()
            invariant
                c <= columns.len(),
                columns.deep_view() == self@,
                well_shaped(self@),
                row < height_of(self@),
                forall|k: int| 0 <= k < c ==> !(#[trigger] self@[k]).cells.is_null(row as int),
            decreases columns.len() - c,
        {
            assert(self@[c as int].cells.len() == self@[0].cells.len());
            assert(columns[c as int]@ == self@[c as int]);
            if columns[c].cells.is_null(row) {
                return false;
            }
            c = c + 1;
        }
        true
    }

    /// The table without the rows in which a cell is empty.
    pub fn drop_nulls(&self) -> (table: Table)
        ensures
            table@ == without_nulls(self@),
    {
        let height = self.height();
        let mut rows: Vec<usize> = Vec::new();
        let mut row: usize = 0;
        while row < height
            invariant
                row <= height,
                height == height_of(self@),
                row_numbers(rows@) == complete_rows(self@, row as nat),
                forall|k: int| 0 <= k < rows.len() ==> rows[k] < row,
            decreases height - row,
        {
            let ghost before = row_numbers(rows@);
            if self.row_is_complete(row) {
                rows.push(row);
                assert(row_numbers(rows@) =~= before.push(row as int));
            }
            row = row + 1;
        }
        self.take(&rows)
    }
}

} // verus!
