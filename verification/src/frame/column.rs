//! Columns: a name and its cells, which are texts or amounts. A cell may be
//! empty.

use vstd::prelude::*;
use vstd::string::StringExecFns;
use crate::frame::amount::Amount;
use crate::frame::amount::Formula;

verus! {

/// The cells of a column, all of one kind.
#[derive(Debug, PartialEq)]
pub enum Cells {
    Text(Vec<Option<String>>),
    Number(Vec<Option<Amount>>),
}

/// What `Cells` stand for in contracts.
pub enum CellsView {
    Text(Seq<Option<Seq<char>>>),
    Number(Seq<Option<Formula>>),
}

/// The items of `cells` at the given rows, in the order of the rows.
pub open spec fn gather<T>(cells: Seq<T>, rows: Seq<int>) -> Seq<T> {
    Seq::new(rows.len(), |k: int| cells[rows[k]])
}

/// Row numbers as integers.
pub open spec fn row_numbers(rows: Seq<usize>) -> Seq<int> {
    Seq::new(rows.len(), |k: int| rows[k] as int)
}

impl CellsView {
    /// The number of cells.
    pub open spec fn len(self) -> nat {
        match self {
            CellsView::Text(cells) => cells.len(),
            CellsView::Number(cells) => cells.len(),
        }
    }

    /// Whether the cell at `row` is empty.
    pub open spec fn is_null(self, row: int) -> bool {
        match self {
            CellsView::Text(cells) => cells[row] is None,
            CellsView::Number(cells) => cells[row] is None,
        }
    }

    /// The cells at the given rows, in the order of the rows.
    pub open spec fn gather(self, rows: Seq<int>) -> CellsView {
        match self {
            CellsView::Text(cells) => CellsView::Text(gather(cells, rows)),
            CellsView::Number(cells) => CellsView::Number(gather(cells, rows)),
        }
    }
}

impl View for Cells {
    type V = CellsView;

    open spec fn view(&self) -> CellsView {
        match self {
            Cells::Text(cells) => CellsView::Text(cells.deep_view()),
            Cells::Number(cells) => CellsView::Number(cells.deep_view()),
        }
    }
}

impl DeepView for Cells {
    type V = CellsView;

    open spec fn deep_view(&self) -> CellsView {
        self@
    }
}

/// A copy of a text cell.
pub fn copy_text(cell: &Option<String>) -> (copy: Option<String>)
    ensures
        copy.deep_view() == cell.deep_view(),
{
    match cell {
        Some(text) => Some(text.clone()),
        None => None,
    }
}

/// A copy of a numeric cell.
pub fn copy_amount(cell: &Option<Amount>) -> (copy: Option<Amount>)
    ensures
        copy.deep_view() == cell.deep_view(),
{
    match cell {
        Some(amount) => Some(amount.clone()),
        None => None,
    }
}

/// The text cells at the given rows, in the order of the rows.
pub fn gather_texts(cells: &Vec<Option<String>>, rows: &Vec<usize>) -> (picked: Vec<
    Option<String>,
>)
    requires
        forall|k: int| 0 <= k < rows.len() ==> rows[k] < cells.len(),
    ensures
        picked.deep_view() == gather(cells.deep_view(), row_numbers(rows@)),
{
    let mut picked: Vec<Option<String>> = Vec::new();
    let mut k: usize = 0;
    while k < rows.len()
        invariant
            k <= rows.len(),
            picked.len() == k,
            forall|j: int| 0 <= j < rows.len() ==> rows[j] < cells.len(),
            forall|j: int| 0 <= j < k ==> picked[j].deep_view() == cells[rows[j] as int].deep_view(),
        decreases rows.len() - k,
    {
        picked.push(copy_text(&cells[rows[k]]));
        k = k + 1;
    }
    assert(picked.deep_view() =~= gather(cells.deep_view(), row_numbers(rows@)));
    picked
}

/// The numeric cells at the given rows, in the order of the rows.
pub fn gather_amounts(cells: &Vec<Option<Amount>>, rows: &Vec<usize>) -> (picked: Vec<
    Option<Amount>,
>)
    requires
        forall|k: int| 0 <= k < rows.len() ==> rows[k] < cells.len(),
    ensures
        picked.deep_view() == gather(cells.deep_view(), row_numbers(rows@)),
{
    let mut picked: Vec<Option<Amount>> = Vec::new();
    let mut k: usize = 0;
    while k < rows.len()
        invariant
            k <= rows.len(),
            picked.len() == k,
            forall|j: int| 0 <= j < rows.len() ==> rows[j] < cells.len(),
            forall|j: int| 0 <= j < k ==> picked[j].deep_view() == cells[rows[j] as int].deep_view(),
        decreases rows.len() - k,
    {
        picked.push(copy_amount(&cells[rows[k]]));
        k = k + 1;
    }
    assert(picked.deep_view() =~= gather(cells.deep_view(), row_numbers(rows@)));
    picked
}

impl Cells {
    /// The number of cells.
    pub fn len(&self) -> (n: usize)
        ensures
            n == self@.len(),
    {
        match self {
            Cells::Text(cells) => cells.len(),
            Cells::Number(cells) => cells.len(),
        }
    }

    /// Whether the cell at `row` is empty.
    pub fn is_null(&self, row: usize) -> (null: bool)
        requires
            row < self@.len(),
        ensures
            null == self@.is_null(row as int),
    {
        match self {
            Cells::Text(cells) => cells[row].is_none(),
            Cells::Number(cells) => cells[row].is_none(),
        }
    }

    /// The cells at the given rows, in the order of the rows.
    pub fn gather(&self, rows: &Vec<usize>) -> (picked: Cells)
        requires
            forall|k: int| 0 <= k < rows.len() ==> rows[k] < self@.len(),
        ensures
            picked@ == self@.gather(row_numbers(rows@)),
    {
        match self {
            Cells::Text(cells) => Cells::Text(gather_texts(cells, rows)),
            Cells::Number(cells) => Cells::Number(gather_amounts(cells, rows)),
        }
    }
}

impl Clone for Cells {
    fn clone(&self) -> (copy: Self)
        ensures
            copy@ == self@,
    {
        match self {
            Cells::Text(cells) => {
                let mut copies: Vec<Option<String>> = Vec::new();
                let mut i: usize = 0;
                while i < cells.len()
                    invariant
                        i <= cells.len(),
                        copies.len() == i,
                        forall|k: int|
                            0 <= k < i ==> copies[k].deep_view() == cells[k].deep_view(),
                    decreases cells.len() - i,
                {
                    copies.push(copy_text(&cells[i]));
                    i = i + 1;
                }
                assert(copies.deep_view() =~= cells.deep_view());
                Cells::Text(copies)
            },
            Cells::Number(cells) => {
                let mut copies: Vec<Option<Amount>> = Vec::new();
                let mut i: usize = 0;
                while i < cells.len()
                    invariant
                        i <= cells.len(),
                        copies.len() == i,
                        forall|k: int|
                            0 <= k < i ==> copies[k].deep_view() == cells[k].deep_view(),
                    decreases cells.len() - i,
                {
                    copies.push(copy_amount(&cells[i]));
                    i = i + 1;
                }
                assert(copies.deep_view() =~= cells.deep_view());
                Cells::Number(copies)
            },
        }
    }
}

/// A named column.
#[derive(Debug, PartialEq)]
pub struct Column {
    pub name: String,
    pub cells: Cells,
}

/// What a `Column` stands for in contracts.
pub struct ColumnView {
    pub name: Seq<char>,
    pub cells: CellsView,
}

impl View for Column {
    type V = ColumnView;

    open spec fn view(&self) -> ColumnView {
        ColumnView { name: self.name@, cells: self.cells@ }
    }
}

impl DeepView for Column {
    type V = ColumnView;

    open spec fn deep_view(&self) -> ColumnView {
        self@
    }
}

impl Column {
    /// A column of the given name and cells.
    pub fn new(name: &str, cells: Cells) -> (column: Self)
        ensures
            column@ == (ColumnView { name: name@, cells: cells@ }),
    {
        Column { name: String::from_str(name), cells }
    }

    /// A column of texts.
    pub fn text(name: &str, cells: Vec<Option<String>>) -> (column: Self)
        ensures
            column@ == (ColumnView { name: name@, cells: CellsView::Text(cells.deep_view()) }),
    {
        Column { name: String::from_str(name), cells: Cells::Text(cells) }
    }

    /// A column of amounts.
    pub fn number(name: &str, cells: Vec<Option<Amount>>) -> (column: Self)
        ensures
            column@ == (ColumnView { name: name@, cells: CellsView::Number(cells.deep_view()) }),
    {
        Column { name: String::from_str(name), cells: Cells::Number(cells) }
    }

    /// The number of cells.
    pub fn len(&self) -> (n: usize)
        ensures
            n == self@.cells.len(),
    {
        self.cells.len()
    }
}

impl Clone for Column {
    fn clone(&self) -> (copy: Self)
        ensures
            copy@ == self@,
    {
        Column { name: self.name.clone(), cells: self.cells.clone() }
    }
}

} // verus!
