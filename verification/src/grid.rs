//! The rows a result grid draws, as plain values.

use vstd::prelude::*;

use crate::text::{contains_text, texts};

verus! {

/// What one cell of a grid shows.
#[derive(Clone, Copy, Debug, PartialEq, Eq)]
pub enum GridCell<'a> {
    /// A value, as text.
    Text(&'a str),
    /// SQL NULL.
    Null,
    /// A cell of a new row that the server will fill in.
    Default,
    /// A large object, with its size where the driver says it.
    Lob { size: Option<u64> },
}

/// What a cell says.
pub ghost enum CellText {
    Text(Seq<char>),
    Null,
    Default,
    Lob(Option<u64>),
}

impl<'a> View for GridCell<'a> {
    type V = CellText;

    open spec fn view(&self) -> CellText {
        match self {
            GridCell::Text(text) => CellText::Text(text@),
            GridCell::Null => CellText::Null,
            GridCell::Default => CellText::Default,
            GridCell::Lob { size } => CellText::Lob(*size),
        }
    }
}

/// One cell as the server sent it.
#[derive(Clone, Debug, PartialEq, Eq)]
pub enum SourceCell {
    Text(String),
    Null,
    Lob { size: Option<u64> },
}

impl View for SourceCell {
    type V = CellText;

    open spec fn view(&self) -> CellText {
        match self {
            SourceCell::Text(text) => CellText::Text(text@),
            SourceCell::Null => CellText::Null,
            SourceCell::Lob { size } => CellText::Lob(*size),
        }
    }
}

/// How the values of a column are laid out.
#[derive(Clone, Copy, Debug, PartialEq, Eq, Structural)]
pub enum GridColumnKind {
    Text,
    Number,
    Other,
}

/// One column heading.
#[derive(Clone, Debug, PartialEq, Eq)]
pub struct GridColumn {
    pub name: String,
    pub kind: GridColumnKind,
    pub primary_key: bool,
}

/// Whether every row is there, more can be fetched, or some are on their way.
#[derive(Clone, Copy, Debug, PartialEq, Eq, Structural)]
pub enum GridSourceState {
    Complete,
    HasMore,
    Loading,
}

/// What a driver says of one column of a result.
#[derive(Clone, Debug, PartialEq, Eq)]
pub struct ColumnInfo {
    pub name: String,
    pub kind: GridColumnKind,
    /// 0 for a column that forbids NULL, 1 for one that allows it, 2 for one the
    /// driver does not describe.
    pub nullable: i32,
    pub auto_increment: bool,
    pub read_only: bool,
}

/// The rows of a result, which only ever grow.
#[derive(Debug)]
pub struct ResultSource {
    pub columns: Vec<GridColumn>,
    pub rows: Vec<Vec<SourceCell>>,
    pub state: GridSourceState,
}

/// What a cell of a list of rows says; a cell that is not there is NULL.
pub open spec fn cell_at(rows: Seq<Vec<SourceCell>>, row: usize, column: usize) -> CellText {
    if row < rows.len() && column < rows[row as int]@.len() {
        rows[row as int]@[column as int]@
    } else {
        CellText::Null
    }
}

impl ResultSource {
    /// A result of these columns and no rows, with nothing more to come.
    pub fn new(columns: &Vec<ColumnInfo>) -> (r: Self)
        ensures
            r.columns@.len() == columns@.len(),
            forall|i: int|
                0 <= i < columns@.len() ==> (#[trigger] r.columns@[i]).name@ == columns@[i].name@
                    && r.columns@[i].kind == columns@[i].kind && !r.columns@[i].primary_key,
            r.rows@.len() == 0,
            r.state == GridSourceState::Complete,
    {
        let mut heads: Vec<GridColumn> = Vec::new();
        let mut i: usize = 0;
        while i < columns.len()
            invariant
                i <= columns@.len(),
                heads@.len() == i,
                forall|k: int|
                    0 <= k < i ==> (#[trigger] heads@[k]).name@ == columns@[k].name@
                        && heads@[k].kind == columns@[k].kind && !heads@[k].primary_key,
            decreases columns.len() - i,
        {
            heads.push(
                GridColumn {
                    name: columns[i].name.clone(),
                    kind: columns[i].kind,
                    primary_key: false,
                },
            );
            i = i + 1;
        }
        ResultSource { columns: heads, rows: Vec::new(), state: GridSourceState::Complete }
    }

    /// Appends a batch of rows.
    pub fn push(&mut self, mut batch: Vec<Vec<SourceCell>>)
        ensures
            final(self).rows@ == old(self).rows@ + batch@,
            final(self).columns == old(self).columns,
            final(self).state == old(self).state,
    {
        self.rows.append(&mut batch);
    }

    /// Marks the columns that `keys` names.
    pub fn mark_primary_keys(&mut self, keys: &Vec<String>)
        ensures
            final(self).rows == old(self).rows,
            final(self).state == old(self).state,
            final(self).columns@.len() == old(self).columns@.len(),
            forall|i: int|
                0 <= i < old(self).columns@.len() ==> {
                    &&& (#[trigger] final(self).columns@[i]).name@ == old(self).columns@[i].name@
                    &&& final(self).columns@[i].kind == old(self).columns@[i].kind
                    &&& final(self).columns@[i].primary_key == texts(keys@).contains(
                        old(self).columns@[i].name@,
                    )
                },
    {
        let mut heads: Vec<GridColumn> = Vec::new();
        let mut i: usize = 0;
        while i < self.columns.len()
            invariant
                *self == *old(self),
                i <= self.columns@.len(),
                heads@.len() == i,
                forall|k: int|
                    0 <= k < i ==> {
                        &&& (#[trigger] heads@[k]).name@ == self.columns@[k].name@
                        &&& heads@[k].kind == self.columns@[k].kind
                        &&& heads@[k].primary_key == texts(keys@).contains(self.columns@[k].name@)
                    },
            decreases self.columns.len() - i,
        {
            let primary_key = contains_text(keys.as_slice(), self.columns[i].name.as_str());
            heads.push(
                GridColumn {
                    name: self.columns[i].name.clone(),
                    kind: self.columns[i].kind,
                    primary_key,
                },
            );
            i = i + 1;
        }
        self.columns = heads;
    }

    /// How many rows there are.
    pub fn row_count(&self) -> (r: usize)
        ensures
            r == self.rows@.len(),
    {
        self.rows.len()
    }

    /// How many columns there are.
    pub fn column_count(&self) -> (r: usize)
        ensures
            r == self.columns@.len(),
    {
        self.columns.len()
    }

    /// What one cell shows.
    pub fn cell(&self, row: usize, column: usize) -> (r: GridCell<'_>)
        ensures
            r@ == cell_at(self.rows@, row, column),
    {
        if row < self.rows.len() && column < self.rows[row].len() {
            match &self.rows[row][column] {
                SourceCell::Text(text) => GridCell::Text(text.as_str()),
                SourceCell::Null => GridCell::Null,
                SourceCell::Lob { size } => GridCell::Lob { size: *size },
            }
        } else {
            GridCell::Null
        }
    }

    /// Says whether more rows are coming.
    pub fn set_state(&mut self, state: GridSourceState)
        ensures
            *final(self) == (ResultSource { state, ..*old(self) }),
    {
        self.state = state;
    }
}

/// A cell reads as what it holds.
pub proof fn a_cell_reads_as_it_is<'a>(shown: GridCell<'a>, sent: SourceCell)
    ensures
        match shown {
            GridCell::Text(text) => shown@ == CellText::Text(text@),
            GridCell::Null => shown@ is Null,
            GridCell::Default => shown@ is Default,
            GridCell::Lob { size } => shown@ == CellText::Lob(size),
        },
        match sent {
            SourceCell::Text(text) => sent@ == CellText::Text(text@),
            SourceCell::Null => sent@ is Null,
            SourceCell::Lob { size } => sent@ == CellText::Lob(size),
        },
{
}

} // verus!
