//! Renaming the columns of a table.

use vstd::prelude::*;
use vstd::string::StringExecFns;
use crate::error::Fault;
use crate::error::PipelineError;
use crate::frame::column::Column;
use crate::frame::column::ColumnView;
use crate::frame::table::distinct_names;
use crate::frame::table::has_column;
use crate::frame::table::position_of;
use crate::frame::table::well_shaped;
use crate::frame::table::Table;
use crate::text::same_text;

verus! {

/// The columns with the column at `place` under a new name.
pub open spec fn with_name_at(columns: Seq<ColumnView>, place: int, name: Seq<char>) -> Seq<
    ColumnView,
> {
    columns.update(place, ColumnView { name, cells: columns[place].cells })
}

/// The columns under the given names, one for each in order.
pub open spec fn with_names(columns: Seq<ColumnView>, names: Seq<Seq<char>>) -> Seq<ColumnView> {
    Seq::new(columns.len(), |c: int| ColumnView { name: names[c], cells: columns[c].cells })
}

/// Whether no two of the names are equal.
pub open spec fn all_distinct(names: Seq<Seq<char>>) -> bool {
    forall|a: int, b: int| 0 <= a < b < names.len() ==> names[a] != names[b]
}

/// Whether `rename` accepts the change of `old` to `new`.
pub open spec fn can_rename(columns: Seq<ColumnView>, old: Seq<char>, new: Seq<char>) -> bool {
    old == new || (!has_column(columns, new) && has_column(columns, old))
}

/// The columns after the change of `old` to `new`.
pub open spec fn after_rename(columns: Seq<ColumnView>, old: Seq<char>, new: Seq<char>) -> Seq<
    ColumnView,
> {
    if old == new {
        columns
    } else {
        with_name_at(columns, position_of(columns, old), new)
    }
}

/// What is wrong where the new name of a column is taken.
pub const NAME_TAKEN: &'static str = "a column already has the new name";

/// What is wrong where no column has the name that is to be changed.
pub const NO_SUCH_COLUMN: &'static str = "no column has the old name";

/// What is wrong with names that are not as many as the columns.
pub const WRONG_COUNT: &'static str = "the names are not as many as the columns";

/// What is wrong with names of which two are equal.
pub const EQUAL_NAMES: &'static str = "two of the names are equal";

/// Why `rename` refuses a change: the new name is looked at first.
pub open spec fn rename_fault(columns: Seq<ColumnView>, new: Seq<char>) -> Fault {
    if has_column(columns, new) {
        Fault::Format { description: NAME_TAKEN@ }
    } else {
        Fault::Format { description: NO_SUCH_COLUMN@ }
    }
}

/// Why `set_column_names` refuses names: their number is looked at first.
pub open spec fn names_fault(columns: Seq<ColumnView>, names: Seq<Seq<char>>) -> Fault {
    if names.len() != columns.len() {
        Fault::Format { description: WRONG_COUNT@ }
    } else {
        Fault::Format { description: EQUAL_NAMES@ }
    }
}

/// The texts of the names.
pub open spec fn texts_of(names: Seq<&str>) -> Seq<Seq<char>> {
    Seq::new(names.len(), |c: int| names[c]@)
}

impl Table {
    /// Gives the column `old` the name `new`. Nothing changes where both are
    /// the same name. Otherwise it fails where a column is already called
    /// `new`, or where none is called `old`.
    pub fn rename(self, old: &str, new: &str) -> (changed: Result<Table, PipelineError>)
        ensures
            changed is Ok <==> can_rename(self@, old@, new@),
            changed matches Ok(table) ==> table@ == after_rename(self@, old@, new@),
            changed matches Err(error) ==> error@ == rename_fault(self@, new@),
    {
        if same_text(old, new) {
            return Ok(self);
        }
        if self.position(new).is_some() {
            return Err(PipelineError::format(NAME_TAKEN));
        }
        let place = match self.position(old) {
            Some(place) => place,
            None => {
                return Err(PipelineError::format(NO_SUCH_COLUMN));
            },
        };
        let ghost before = self@;
        let mut columns = self.into_columns();
        let column = columns.remove(place);
        let renamed = Column { name: String::from_str(new), cells: column.cells };
        columns.insert(place, renamed);
        proof {
            let after = with_name_at(before, place as int, new@);
            assert(columns.deep_view() =~= after);
            assert forall|a: int, b: int| 0 <= a < b < after.len() implies (#[trigger] after[a]).name
                != (#[trigger] after[b]).name by {
                assert(before[a].name != before[b].name);
                if a == place {
                    assert(before[b].name != new@);
                }
                if b == place {
                    assert(before[a].name != new@);
                }
            }
            assert forall|c: int| 0 <= c < after.len() implies (#[trigger] after[c]).cells.len()
                == after[0].cells.len() by {
                assert(before[c].cells.len() == before[0].cells.len());
                assert(before[place as int].cells.len() == before[0].cells.len());
            }
        }
        Ok(Table::assemble(columns))
    }

    /// Gives the columns the given names, in order. It fails where the names
    /// are not as many as the columns, or two of them are equal.
    pub fn set_column_names(self, names: &Vec<&str>) -> (changed: Result<Table, PipelineError>)
        ensures
            changed is Ok <==> names.len() == self@.len() && all_distinct(texts_of(names@)),
            changed matches Ok(table) ==> table@ == with_names(self@, texts_of(names@)),
            changed matches Err(error) ==> error@ == names_fault(self@, texts_of(names@)),
    {
        if names.len() != self.width() {
            return Err(PipelineError::format(WRONG_COUNT));
        }
        let mut b: usize = 0;
        while b < names.len()
            invariant
                b <= names.len(),
                names.len() == self@.len(),
                forall|i: int, j: int| 0 <= i < j < b ==> names[i]@ != names[j]@,
            decreases names.len() - b,
        {
            let mut a: usize = 0;
            while a < b
                invariant
                    a <= b < names.len(),
                    names.len() == self@.len(),
                    forall|i: int| 0 <= i < a ==> names[i]@ != names[b as int]@,
                decreases b - a,
            {
                if same_text(names[a], names[b]) {
                    proof {
                        let texts = texts_of(names@);
                        assert(texts[a as int] == texts[b as int]);
                    }
                    return Err(PipelineError::format(EQUAL_NAMES));
                }
                a = a + 1;
            }
            b = b + 1;
        }
        let ghost before = self@;
        let old_columns = self.into_columns();
        let mut columns: Vec<Column> = Vec::new();
        let mut c: usize = 0;
        while c < old_columns.len()
            invariant
                c <= old_columns.len(),
                old_columns.len() == names.len(),
                columns.len() == c,
                forall|k: int|
                    0 <= k < c ==> (#[trigger] columns[k])@ == (ColumnView {
                        name: names[k]@,
                        cells: old_columns[k]@.cells,
                    }),
            decreases old_columns.len() - c,
        {
            columns.push(
                Column { name: String::from_str(names[c]), cells: old_columns[c].cells.clone() },
            );
            c = c + 1;
        }
        proof {
            let after = with_names(before, texts_of(names@));
            assert(columns.deep_view() =~= after);
            assert forall|k: int| 0 <= k < after.len() implies (#[trigger] after[k]).cells.len()
                == after[0].cells.len() by {
                assert(before[k].cells.len() == before[0].cells.len());
            }
            assert(distinct_names(after));
            assert(well_shaped(after));
        }
        Ok(Table::assemble(columns))
    }
}

} // verus!
