//! Tables of text, for looking at values while the program runs.

use vstd::prelude::*;

verus! {

/// A table that is filled with text cell by cell, row by row.
#[derive(Debug)]
pub struct Grid {
    /// What the table is called.
    name: String,
    /// The rows that are finished.
    rows: Vec<Vec<String>>,
    /// The cells of the row that is being filled.
    row: Vec<String>,
}

/// The mathematical content of a [`Grid`].
pub struct GridView {
    /// What the table is called.
    pub name: Seq<char>,
    /// The rows that are finished, top to bottom. A row is the texts of its
    /// cells, left to right.
    pub rows: Seq<Seq<Seq<char>>>,
    /// The cells of the row that is being filled.
    pub row: Seq<Seq<char>>,
}

impl GridView {
    /// The table called `name` with nothing in it.
    pub open spec fn new(name: Seq<char>) -> GridView {
        GridView { name, rows: Seq::empty(), row: Seq::empty() }
    }

    /// The table after the cell `text` was added to its current row.
    pub open spec fn label(self, text: Seq<char>) -> GridView {
        GridView { name: self.name, rows: self.rows, row: self.row.push(text) }
    }

    /// The table after its current row was finished.
    pub open spec fn end_row(self) -> GridView {
        GridView { name: self.name, rows: self.rows.push(self.row), row: Seq::empty() }
    }
}

impl View for Grid {
    type V = GridView;

    closed spec fn view(&self) -> GridView {
        GridView { name: self.name@, rows: self.rows.deep_view(), row: self.row.deep_view() }
    }
}

impl Grid {
    /// A table called `name` with nothing in it.
    pub fn new(name: &str) -> (grid: Grid)
        ensures
            grid@ == GridView::new(name@),
    {
        let grid = Grid { name: name.to_owned(), rows: Vec::new(), row: Vec::new() };
        assert(grid.rows.deep_view() =~= Seq::empty());
        assert(grid.row.deep_view() =~= Seq::empty());
        grid
    }

    /// Adds a cell with `text` to the current row.
    pub fn label(&mut self, text: &str)
        ensures
            final(self)@ == old(self)@.label(text@),
    {
        self.row.push(text.to_owned());
        assert(self.row.deep_view() =~= old(self).row.deep_view().push(text@));
    }

    /// Finishes the current row. The cells that follow go to a new row.
    pub fn end_row(&mut self)
        ensures
            final(self)@ == old(self)@.end_row(),
    {
        let mut row = Vec::new();
        std::mem::swap(&mut self.row, &mut row);
        self.rows.push(row);
        assert(self.row.deep_view() =~= Seq::empty());
        assert(self.rows.deep_view() =~= old(self).rows.deep_view().push(
            old(self).row.deep_view(),
        ));
    }

    /// What the table is called.
    pub fn name(&self) -> (name: &str)
        ensures
            name@ == self@.name,
    {
        self.name.as_str()
    }

    /// The rows that are finished, top to bottom.
    pub fn rows(&self) -> (rows: &Vec<Vec<String>>)
        ensures
            rows.deep_view() == self@.rows,
    {
        &self.rows
    }

    /// The cells of the row that is being filled, left to right.
    pub fn row(&self) -> (row: &Vec<String>)
        ensures
            row.deep_view() == self@.row,
    {
        &self.row
    }
}

/// What is shown to whoever looks at the running program: a list of tables.
///
/// Its view is the list of the contents of its tables, in the order in which
/// they were shown.
#[derive(Debug)]
pub struct Ui {
    grids: Vec<Grid>,
}

impl View for Ui {
    type V = Seq<GridView>;

    closed spec fn view(&self) -> Seq<GridView> {
        Seq::new(self.grids@.len(), |i: int| self.grids@[i]@)
    }
}

impl Ui {
    /// Nothing is shown yet.
    pub fn new() -> (ui: Ui)
        ensures
            ui@ == Seq::<GridView>::empty(),
    {
        let ui = Ui { grids: Vec::new() };
        assert(ui@ =~= Seq::<GridView>::empty());
        ui
    }

    /// Shows `grid` below what is shown already.
    pub fn show(&mut self, grid: Grid)
        ensures
            final(self)@ == old(self)@.push(grid@),
    {
        self.grids.push(grid);
        assert(self@ =~= old(self)@.push(grid@));
    }

    /// The tables that are shown, top to bottom.
    pub fn grids(&self) -> (grids: &Vec<Grid>)
        ensures
            grids@.len() == self@.len(),
            forall|i: int| 0 <= i < grids@.len() ==> (#[trigger] grids@[i])@ == self@[i],
    {
        &self.grids
    }
}

} // verus!
