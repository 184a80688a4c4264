//! Tables: columns of one height, no two under one name.

use vstd::prelude::*;
use crate::error::Fault;
use crate::error::PipelineError;
use crate::frame::column::Column;
use crate::frame::column::ColumnView;
use crate::text::same_text;

verus! {

/// Whether all columns hold as many cells as the first.
pub open spec fn same_height(columns: Seq<ColumnView>) -> bool {
    forall|c: int|
        0 <= c < columns.len() ==> (#[trigger] columns[c]).cells.len() == columns[0].cells.len()
}

/// Whether no two columns share a name.
pub open spec fn distinct_names(columns: Seq<ColumnView>) -> bool {
    forall|a: int, b: int|
        0 <= a < b < columns.len() ==> (#[trigger] columns[a]).name != (#[trigger] columns[b]).name
}

/// What holds of the columns of every table.
pub open spec fn well_shaped(columns: Seq<ColumnView>) -> bool {
    same_height(columns) && distinct_names(columns)
}

/// The number of rows.
pub open spec fn height_of(columns: Seq<ColumnView>) -> nat {
    if columns.len() == 0 {
        0
    } else {
        columns[0].cells.len()
    }
}

/// Whether a column has the given name.
pub open spec fn has_column(columns: Seq<ColumnView>, name: Seq<char>) -> bool {
    exists|c: int| 0 <= c < columns.len() && (#[trigger] columns[c]).name == name
}

/// The place of the column of the given name, where there is one.
pub open spec fn position_of(columns: Seq<ColumnView>, name: Seq<char>) -> int {
    choose|c: int| 0 <= c < columns.len() && (#[trigger] columns[c]).name == name
}

/// Where names are distinct, a name is found at one place only.
pub proof fn name_has_one_place(columns: Seq<ColumnView>, name: Seq<char>, c: int)
    requires
        distinct_names(columns),
        0 <= c < columns.len(),
        columns[c].name == name,
    ensures
        has_column(columns, name),
        position_of(columns, name) == c,
{
    let p = position_of(columns, name);
    if p < c {
        assert(columns[p].name != columns[c].name);
    } else if c < p {
        assert(columns[c].name != columns[p].name);
    }
}

/// The names of the columns, in order.
pub open spec fn names_of(columns: Seq<ColumnView>) -> Seq<Seq<char>> {
    Seq::new(columns.len(), |c: int| columns[c].name)
}

/// What is wrong with columns of differing heights.
pub const UNEVEN: &'static str = "the columns differ in height";

/// What is wrong with columns that share a name.
pub const SHARED_NAME: &'static str = "two columns share a name";

/// Why columns that are not well shaped make no table: their heights are
/// looked at first.
pub open spec fn shape_fault(columns: Seq<ColumnView>) -> Fault {
    if !same_height(columns) {
        Fault::Format { description: UNEVEN@ }
    } else {
        Fault::Format { description: SHARED_NAME@ }
    }
}

/// A table: columns of one height, no two under one name.
#[derive(Debug, PartialEq)]
pub struct Table {
    columns: Vec<Column>,
}

impl View for Table {
    type V = Seq<ColumnView>;

    closed spec fn view(&self) -> Seq<ColumnView> {
        self.columns.deep_view()
    }
}

impl Table {
    #[verifier::type_invariant]
    spec fn shaped(self) -> bool {
        well_shaped(self.columns.deep_view())
    }

    /// The table of the given columns, if they have one height and distinct
    /// names.
    pub fn new(columns: Vec<Column>) -> (made: Result<Table, PipelineError>)
        ensures
            made is Ok <==> well_shaped(columns.deep_view()),
            made matches Ok(table) ==> table@ == columns.deep_view(),
            made matches Err(error) ==> error@ == shape_fault(columns.deep_view()),
    {
        let ghost view = columns.deep_view();
        let mut c: usize = 0;
        while c < columns.len()
            invariant
                c <= columns.len(),
                view == columns.deep_view(),
                forall|k: int| 0 <= k < c ==> (#[trigger] view[k]).cells.len() == view[0].cells.len(),
            decreases columns.len() - c,
        {
            if columns[c].len() != columns[0].len() {
                assert(view[c as int].cells.len() != view[0].cells.len());
                return Err(PipelineError::format(UNEVEN));
            }
            c = c + 1;
        }
        let mut b: usize = 0;
        while b < columns.len()
            invariant
                b <= columns.len(),
                view == columns.deep_view(),
                same_height(view),
                forall|i: int, j: int|
                    0 <= i < j < b ==> (#[trigger] view[i]).name != (#[trigger] view[j]).name,
            decreases columns.len() - b,
        {
            let mut a: usize = 0;
            while a < b
                invariant
                    a <= b < columns.len(),
                    view == columns.deep_view(),
                    same_height(view),
                    forall|k: int| 0 <= k < a ==> (#[trigger] view[k]).name != view[b as int].name,
                decreases b - a,
            {
                if columns[a].name == columns[b].name {
                    assert(view[a as int].name == view[b as int].name);
                    return Err(PipelineError::format(SHARED_NAME));
                }
                a = a + 1;
            }
            b = b + 1;
        }
        Ok(Table { columns })
    }

    /// The table of columns that are known to fit together.
    pub(crate) fn assemble(columns: Vec<Column>) -> (table: Table)
        requires
            well_shaped(columns.deep_view()),
        ensures
            table@ == columns.deep_view(),
    {
        Table { columns }
    }

    /// The table without columns.
    pub fn empty() -> (table: Table)
        ensures
            table@ == Seq::<ColumnView>::empty(),
    {
        let columns: Vec<Column> = Vec::new();
        assert(columns.deep_view() =~= Seq::<ColumnView>::empty());
        Table { columns }
    }

    /// The columns, in order.
    pub fn columns(&self) -> (columns: &Vec<Column>)
        ensures
            columns.deep_view() == self@,
            well_shaped(self@),
    {
        proof {
            use_type_invariant(self);
        }
        &self.columns
    }

    /// The columns, in order, by value.
    pub fn into_columns(self) -> (columns: Vec<Column>)
        ensures
            columns.deep_view() == self@,
            well_shaped(self@),
    {
        proof {
            use_type_invariant(&self);
        }
        self.columns
    }

    /// The number of columns.
    pub fn width(&self) -> (n: usize)
        ensures
            n == self@.len(),
    {
        self.columns.len()
    }

    /// The number of rows.
    pub fn height(&self) -> (n: usize)
        ensures
            n == height_of(self@),
    {
        if self.columns.len() == 0 {
            0
        } else {
            self.columns[0].len()
        }
    }

    /// The place of the column of the given name.
    pub fn position(&self, name: &str) -> (place: Option<usize>)
        ensures
            place is Some <==> has_column(self@, name@),
            place matches Some(c) ==> c == position_of(self@, name@) && c < self@.len()
                && self@[c as int].name == name@,
            well_shaped(self@),
    {
        proof {
            use_type_invariant(self);
        }
        let mut c: usize = 0;
        while c < self.columns.len()
            invariant
                c <= self.columns.len(),
                well_shaped(self@),
                forall|k: int| 0 <= k < c ==> (#[trigger] self@[k]).name != name@,
            decreases self.columns.len() - c,
        {
            if same_text(self.columns[c].name.as_str(), name) {
                proof {
                    name_has_one_place(self@, name@, c as int);
                }
                return Some(c);
            }
            c = c + 1;
        }
        None
    }

    /// The column of the given name.
    pub fn column(&self, name: &str) -> (found: Option<&Column>)
        ensures
            found is Some <==> has_column(self@, name@),
            found matches Some(column) ==> column@ == self@[position_of(self@, name@)]
                && position_of(self@, name@) < self@.len(),
            well_shaped(self@),
    {
        match self.position(name) {
            Some(c) => Some(&self.columns[c]),
            None => None,
        }
    }

    /// The names of the columns, in order.
    pub fn column_names(&self) -> (names: Vec<String>)
        ensures
            names.deep_view() == names_of(self@),
    {
        let mut names: Vec<String> = Vec::new();
        let mut c: usize = 0;
        while c < self.columns.len()
            invariant
                c <= self.columns.len(),
                names.len() == c,
                forall|k: int| 0 <= k < c ==> names[k]@ == (#[trigger] self@[k]).name,
            decreases self.columns.len() - c,
        {
            names.push(self.columns[c].name.clone());
            c = c + 1;
        }
        assert(names.deep_view() =~= names_of(self@));
        names
    }
}

impl Clone for Table {
    fn clone(&self) -> (copy: Self)
        ensures
            copy@ == self@,
    {
        proof {
            use_type_invariant(self);
        }
        let mut columns: Vec<Column> = Vec::new();
        let mut c: usize = 0;
        while c < self.columns.len()
            invariant
                c <= self.columns.len(),
                columns.len() == c,
                forall|k: int| 0 <= k < c ==> columns[k]@ == self.columns[k]@,
            decreases self.columns.len() - c,
        {
            columns.push(self.columns[c].clone());
            c = c + 1;
        }
        assert(columns.deep_view() =~= self.columns.deep_view());
        Table { columns }
    }
}

} // verus!
