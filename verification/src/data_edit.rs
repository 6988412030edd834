//! What the data pane is holding that the server has not seen yet.
//!
//! [`EditSet`] is the staging buffer that lies beside the rows rather than inside
//! them, and [`EditableSource`] is the overlay that lays it back over them on the
//! way to the grid.
//!
//! The source under the grid is append-only: a page adds a batch and nothing
//! already in it moves, so a base row's index is stable for as long as that
//! source is. Rows the user inserts are a list of their own, drawn after the last
//! fetched row; their grid indices slide down when another page comes in, and
//! [`EditSet::locate`] is the one place the two spaces are told apart.
//!
//! A deleted row keeps its slot and goes on being drawn, struck through, until
//! the change is applied or discarded. Staging a cell back to the value it was
//! read with un-stages it.

use vstd::prelude::*;

use crate::grid::{
    cell_at, CellText, ColumnInfo, GridCell, GridColumn, GridSourceState, ResultSource,
};
use crate::text::{same_text, str_text};

verus! {

/// What a staged cell says.
pub ghost enum StagedText {
    Unset,
    Null,
    Text(Seq<char>),
}

/// What has been staged into one cell.
///
/// Three states and not two, because an `INSERT` can say three things about a
/// column: write this, write NULL, or do not name the column at all and let the
/// server decide.
#[derive(Clone, Debug, PartialEq, Eq)]
pub enum StagedCell {
    /// The column is left out of the statement; the server supplies it. Only ever
    /// holds for a cell of an inserted row.
    Unset,
    /// SQL NULL, written deliberately.
    Null,
    /// What the user typed, verbatim: neither trimmed nor parsed.
    Text(String),
}

impl View for StagedCell {
    type V = StagedText;

    open spec fn view(&self) -> StagedText {
        match self {
            StagedCell::Unset => StagedText::Unset,
            StagedCell::Null => StagedText::Null,
            StagedCell::Text(text) => StagedText::Text(text@),
        }
    }
}

/// Whether a staged value is what a cell reading `original` already holds, where
/// `None` stands for NULL.
pub open spec fn staged_matches(value: StagedText, original: Option<Seq<char>>) -> bool {
    match value {
        StagedText::Unset => false,
        StagedText::Null => original is None,
        StagedText::Text(text) => original == Some(text),
    }
}

impl StagedCell {
    /// Whether this is what a cell reading `original` already holds: the whole of
    /// "did the edit walk back to where it started?".
    pub fn matches(&self, original: Option<&str>) -> (r: bool)
        ensures
            r == staged_matches(self@, str_text(original)),
    {
        match self {
            StagedCell::Unset => false,
            StagedCell::Null => original.is_none(),
            StagedCell::Text(text) => match original {
                Some(read) => same_text(read, text.as_str()),
                None => false,
            },
        }
    }
}

/// Which of the two row spaces a grid row index falls in.
#[derive(Clone, Copy, Debug, PartialEq, Eq, Structural)]
pub enum RowRef {
    /// A row the server gave us, by its index in the append-only source.
    Base(usize),
    /// A row the user is adding, by its position among the inserted ones.
    Inserted(usize),
}

/// How much is staged, as the toolbar counts it: rows and not cells, because an
/// apply sends one statement per row.
#[derive(Clone, Copy, Debug, PartialEq, Eq, Structural)]
pub struct EditCounts {
    /// Base rows with at least one changed cell, deletions excluded.
    pub changed: usize,
    /// Rows staged to be added.
    pub inserted: usize,
    /// Rows staged to go.
    pub deleted: usize,
}

/// How a row is marked.
#[derive(Clone, Copy, Debug, PartialEq, Eq, Structural)]
pub enum RowStatus {
    Unchanged,
    Modified,
    Inserted,
    Deleted,
}

/// One changed cell of a base row.
#[derive(Clone, Debug, PartialEq, Eq)]
pub struct ChangedCell {
    pub row: usize,
    pub column: usize,
    pub value: StagedCell,
}

/// What is staged: the changed cells of base rows, the base rows to delete, and
/// the rows to add with one cell per column.
#[verifier::ext_equal]
pub ghost struct Staged {
    pub changed: Map<(usize, usize), StagedText>,
    pub deleted: Set<usize>,
    pub inserted: Seq<Seq<StagedText>>,
}

/// Everything staged against one table's rows, and nothing else.
#[derive(Debug)]
pub struct EditSet {
    /// New values of base cells, each cell once and never `Unset`.
    changed: Vec<ChangedCell>,
    /// Base rows staged to be deleted, ascending: the statements a batch becomes
    /// read down the grid.
    deleted: Vec<usize>,
    /// Rows staged to be added: one entry per row, one cell per column.
    inserted: Vec<Vec<StagedCell>>,
}

/// Whether entry `i` is the one about the cell.
pub open spec fn is_about(entry: ChangedCell, cell: (usize, usize)) -> bool {
    entry.row == cell.0 && entry.column == cell.1
}

/// Whether no two entries are about one cell, and none is left to the server.
pub open spec fn cells_differ(entries: Seq<ChangedCell>) -> bool {
    &&& forall|i: int, j: int|
        0 <= i < entries.len() && 0 <= j < entries.len() && i != j ==> !is_about(
            #[trigger] entries[i],
            ((#[trigger] entries[j]).row, entries[j].column),
        )
    &&& forall|i: int| 0 <= i < entries.len() ==> (#[trigger] entries[i]).value@ != StagedText::Unset
}

/// The cells that a list of entries is about, and what it says of each.
pub open spec fn cell_map(entries: Seq<ChangedCell>) -> Map<(usize, usize), StagedText> {
    Map::new(
        |cell: (usize, usize)|
            exists|i: int| 0 <= i < entries.len() && is_about(#[trigger] entries[i], cell),
        |cell: (usize, usize)|
            entries[choose|i: int|
                0 <= i < entries.len() && is_about(#[trigger] entries[i], cell)].value@,
    )
}

/// Whether the rows ascend.
pub open spec fn ascending(rows: Seq<usize>) -> bool {
    forall|i: int, j: int| 0 <= i < j < rows.len() ==> rows[i] < rows[j]
}

/// The staged cells of one row.
pub open spec fn row_cells(row: Seq<StagedCell>) -> Seq<StagedText> {
    row.map_values(|cell: StagedCell| cell@)
}

/// The staged cells of the inserted rows.
pub open spec fn inserted_cells(rows: Seq<Vec<StagedCell>>) -> Seq<Seq<StagedText>> {
    rows.map_values(|row: Vec<StagedCell>| row_cells(row@))
}

/// An entry says what the map says of its cell.
proof fn lemma_cell(entries: Seq<ChangedCell>, i: int)
    requires
        cells_differ(entries),
        0 <= i < entries.len(),
    ensures
        cell_map(entries).dom().contains((entries[i].row, entries[i].column)),
        cell_map(entries)[(entries[i].row, entries[i].column)] == entries[i].value@,
{
    let cell = (entries[i].row, entries[i].column);
    assert(is_about(entries[i], cell));
    let j = choose|j: int| 0 <= j < entries.len() && is_about(#[trigger] entries[j], cell);
    if i != j {
        assert(!is_about(entries[j], (entries[i].row, entries[i].column)));
    }
}

/// A list with an entry for `cell` at `at`, and otherwise the entries of another
/// list that are not about it, spells that list's map with the cell put in.
proof fn lemma_put(before: Seq<ChangedCell>, after: Seq<ChangedCell>, at: int, cell: (usize, usize))
    requires
        cells_differ(before),
        cells_differ(after),
        0 <= at < after.len(),
        is_about(after[at], cell),
        forall|i: int|
            0 <= i < before.len() && !is_about(#[trigger] before[i], cell) ==> after.contains(before[i]),
        forall|j: int| 0 <= j < after.len() && j != at ==> before.contains(#[trigger] after[j]),
    ensures
        cell_map(after) == cell_map(before).insert(cell, after[at].value@),
{
    let wanted = cell_map(before).insert(cell, after[at].value@);
    lemma_cell(after, at);
    assert forall|k: (usize, usize)| #[trigger] cell_map(after).dom().contains(k)
        == wanted.dom().contains(k) by {
        if cell_map(after).dom().contains(k) && k != cell {
            let j = choose|j: int| 0 <= j < after.len() && is_about(#[trigger] after[j], k);
            let i = choose|i: int| 0 <= i < before.len() && before[i] == after[j];
            lemma_cell(before, i);
        }
        if cell_map(before).dom().contains(k) && k != cell {
            let i = choose|i: int| 0 <= i < before.len() && is_about(#[trigger] before[i], k);
            assert(!is_about(before[i], cell));
            let j = choose|j: int| 0 <= j < after.len() && after[j] == before[i];
            lemma_cell(after, j);
        }
    }
    assert forall|k: (usize, usize)| #[trigger] cell_map(after).dom().contains(k) implies cell_map(
        after,
    )[k] == wanted[k] by {
        if k != cell {
            let j = choose|j: int| 0 <= j < after.len() && is_about(#[trigger] after[j], k);
            let i = choose|i: int| 0 <= i < before.len() && before[i] == after[j];
            lemma_cell(before, i);
            lemma_cell(after, j);
        }
    }
    assert(cell_map(after) =~= wanted);
}

/// A list with the entries of another that `gone` does not name spells that
/// list's map without the cells it names.
proof fn lemma_drop(
    before: Seq<ChangedCell>,
    after: Seq<ChangedCell>,
    gone: spec_fn((usize, usize)) -> bool,
)
    requires
        cells_differ(before),
        cells_differ(after),
        forall|i: int|
            0 <= i < before.len() && !gone(((#[trigger] before[i]).row, before[i].column))
                ==> after.contains(before[i]),
        forall|j: int|
            0 <= j < after.len() ==> !gone(((#[trigger] after[j]).row, after[j].column))
                && before.contains(after[j]),
    ensures
        cell_map(after) == cell_map(before).remove_keys(Set::new(gone)),
{
    let wanted = cell_map(before).remove_keys(Set::new(gone));
    assert forall|k: (usize, usize)| #[trigger] cell_map(after).dom().contains(k)
        == wanted.dom().contains(k) by {
        if cell_map(after).dom().contains(k) {
            let j = choose|j: int| 0 <= j < after.len() && is_about(#[trigger] after[j], k);
            assert(k == (after[j].row, after[j].column));
            let i = choose|i: int| 0 <= i < before.len() && before[i] == after[j];
            lemma_cell(before, i);
        }
        if wanted.dom().contains(k) {
            let i = choose|i: int| 0 <= i < before.len() && is_about(#[trigger] before[i], k);
            assert(k == (before[i].row, before[i].column));
            let j = choose|j: int| 0 <= j < after.len() && after[j] == before[i];
            lemma_cell(after, j);
        }
    }
    assert forall|k: (usize, usize)| #[trigger] cell_map(after).dom().contains(k) implies cell_map(
        after,
    )[k] == wanted[k] by {
        let j = choose|j: int| 0 <= j < after.len() && is_about(#[trigger] after[j], k);
        let i = choose|i: int| 0 <= i < before.len() && before[i] == after[j];
        lemma_cell(before, i);
        lemma_cell(after, j);
    }
    assert(cell_map(after) =~= wanted);
}

/// Whether nothing at all is staged.
pub open spec fn nothing_staged(staged: Staged) -> bool {
    staged.changed.dom() == Set::<(usize, usize)>::empty() && staged.deleted == Set::<usize>::empty()
        && staged.inserted.len() == 0
}

/// What is staged where nothing is.
pub open spec fn no_edits() -> Staged {
    Staged { changed: Map::empty(), deleted: Set::empty(), inserted: Seq::empty() }
}

/// The base rows with a changed cell that are not to be deleted.
pub open spec fn edited_rows(staged: Staged) -> Set<usize> {
    Set::new(
        |row: usize|
            !staged.deleted.contains(row) && exists|column: usize| #[trigger]
                staged.changed.dom().contains((row, column)),
    )
}

/// Which row space `row` falls in, over `base_rows` base rows.
pub open spec fn located(inserted: nat, row: usize, base_rows: usize) -> Option<RowRef> {
    if row < base_rows {
        Some(RowRef::Base(row))
    } else if row - base_rows < inserted {
        Some(RowRef::Inserted((row - base_rows) as usize))
    } else {
        None
    }
}

/// What is staged once `value` went into a base cell reading `original`.
pub open spec fn after_stage(
    staged: Staged,
    row: usize,
    column: usize,
    value: StagedText,
    original: Option<Seq<char>>,
) -> Staged {
    if value is Unset || staged_matches(value, original) {
        Staged { changed: staged.changed.remove((row, column)), ..staged }
    } else {
        Staged { changed: staged.changed.insert((row, column), value), ..staged }
    }
}

/// What is staged once the deletion mark of a base row was flipped.
pub open spec fn after_toggle(staged: Staged, row: usize) -> Staged {
    if staged.deleted.contains(row) {
        Staged { deleted: staged.deleted.remove(row), ..staged }
    } else {
        Staged { deleted: staged.deleted.insert(row), ..staged }
    }
}

/// What is staged once everything staged against one row is gone.
pub open spec fn after_discard(staged: Staged, row: usize, base_rows: usize) -> Staged {
    match located(staged.inserted.len(), row, base_rows) {
        Some(RowRef::Base(row)) => Staged {
            changed: staged.changed.remove_keys(Set::new(|cell: (usize, usize)| cell.0 == row)),
            deleted: staged.deleted.remove(row),
            ..staged
        },
        Some(RowRef::Inserted(index)) => Staged {
            inserted: staged.inserted.remove(index as int),
            ..staged
        },
        None => staged,
    }
}

/// How a row is marked. Deletion wins over modification, because it is the
/// statement the row will become.
pub open spec fn status_of(staged: Staged, row: usize, base_rows: usize) -> RowStatus {
    match located(staged.inserted.len(), row, base_rows) {
        Some(RowRef::Base(row)) => if staged.deleted.contains(row) {
            RowStatus::Deleted
        } else if edited_rows(staged).contains(row) {
            RowStatus::Modified
        } else {
            RowStatus::Unchanged
        },
        Some(RowRef::Inserted(_)) => RowStatus::Inserted,
        None => RowStatus::Unchanged,
    }
}

/// Whether one cell carries a value the server has not seen. The untouched cells
/// of an inserted row carry none.
pub open spec fn dirty(staged: Staged, row: usize, column: usize, base_rows: usize) -> bool {
    match located(staged.inserted.len(), row, base_rows) {
        Some(RowRef::Base(row)) => staged.changed.dom().contains((row, column)),
        Some(RowRef::Inserted(index)) => column < staged.inserted[index as int].len()
            && staged.inserted[index as int][column as int] != StagedText::Unset,
        None => false,
    }
}

/// Whether anything is staged against the row.
pub open spec fn row_staged(staged: Staged, row: usize, base_rows: usize) -> bool {
    status_of(staged, row, base_rows) != RowStatus::Unchanged
}

impl View for EditSet {
    type V = Staged;

    closed spec fn view(&self) -> Staged {
        Staged {
            changed: cell_map(self.changed@),
            deleted: self.deleted@.to_set(),
            inserted: inserted_cells(self.inserted@),
        }
    }
}

impl EditSet {
    #[verifier::type_invariant]
    spec fn wf(self) -> bool {
        cells_differ(self.changed@) && ascending(self.deleted@)
    }

    /// Nothing staged.
    pub fn new() -> (r: Self)
        ensures
            r@ == no_edits(),
    {
        let r = EditSet { changed: Vec::new(), deleted: Vec::new(), inserted: Vec::new() };
        assert(r@.changed =~= Map::empty());
        assert(r@.deleted =~= Set::empty());
        assert(r@.inserted =~= Seq::empty());
        r
    }

    /// The changed cells of base rows, in the order they were first changed.
    pub fn changed(&self) -> (r: &Vec<ChangedCell>)
        ensures
            cell_map(r@) == self@.changed,
            cells_differ(r@),
    {
        proof {
            use_type_invariant(self);
        }
        &self.changed
    }

    /// The base rows staged to be deleted, ascending.
    pub fn deleted(&self) -> (r: &Vec<usize>)
        ensures
            r@.to_set() == self@.deleted,
            ascending(r@),
    {
        proof {
            use_type_invariant(self);
        }
        &self.deleted
    }

    /// The rows staged to be added.
    pub fn inserted(&self) -> (r: &Vec<Vec<StagedCell>>)
        ensures
            inserted_cells(r@) == self@.inserted,
    {
        &self.inserted
    }

    /// Whether an apply would send nothing.
    pub fn is_empty(&self) -> (r: bool)
        ensures
            r == nothing_staged(self@),
    {
        proof {
            use_type_invariant(self);
            if self.changed@.len() > 0 {
                lemma_cell(self.changed@, 0);
            } else {
                assert(self@.changed.dom() =~= Set::<(usize, usize)>::empty());
            }
            if self.deleted@.len() > 0 {
                assert(self.deleted@.to_set().contains(self.deleted@[0]));
            } else {
                assert(self@.deleted =~= Set::<usize>::empty());
            }
        }
        self.changed.len() == 0 && self.deleted.len() == 0 && self.inserted.len() == 0
    }

    /// How many rows of each kind are staged. A row that is both edited and
    /// deleted counts once, as a deletion: that is the statement it will become.
    pub fn counts(&self) -> (r: EditCounts)
        ensures
            edited_rows(self@).finite(),
            r.changed == edited_rows(self@).len(),
            r.inserted == self@.inserted.len(),
            self@.deleted.finite(),
            r.deleted == self@.deleted.len(),
    {
        proof {
            use_type_invariant(self);
        }
        let mut rows: Vec<usize> = Vec::new();
        let mut i: usize = 0;
        while i < self.changed.len()
            invariant
                i <= self.changed@.len(),
                rows@.no_duplicates(),
                forall|k: int|
                    0 <= k < rows@.len() ==> !self.deleted@.contains(#[trigger] rows@[k]) && exists|
                        j: int,
                    |
                        0 <= j < i && (#[trigger] self.changed@[j]).row == rows@[k],
                forall|j: int|
                    0 <= j < i && !self.deleted@.contains((#[trigger] self.changed@[j]).row)
                        ==> rows@.contains(self.changed@[j].row),
            decreases self.changed.len() - i,
        {
            let row: usize = self.changed[i].row;
            let gone = holds_row(&self.deleted, row);
            let known = holds_row(&rows, row);
            if !gone && !known {
                let ghost before = rows@;
                rows.push(row);
                proof {
                    assert forall|j: int|
                        0 <= j < i + 1 && !self.deleted@.contains(
                            (#[trigger] self.changed@[j]).row,
                        ) implies rows@.contains(self.changed@[j].row) by {
                        if j < i {
                            let k = choose|k: int| 0 <= k < before.len() && before[k] == self.changed@[j].row;
                            assert(rows@[k] == self.changed@[j].row);
                        } else {
                            assert(rows@[rows@.len() - 1] == row);
                        }
                    }
                    assert forall|k: int| 0 <= k < rows@.len() implies !self.deleted@.contains(
                        #[trigger] rows@[k],
                    ) && exists|j: int| 0 <= j < i + 1 && (#[trigger] self.changed@[j]).row == rows@[k] by {
                        if k == rows@.len() - 1 {
                            assert(self.changed@[i as int].row == rows@[k]);
                        } else {
                            assert(rows@[k] == before[k]);
                        }
                    }
                }
            }
            i = i + 1;
        }
        proof {
            let wanted = edited_rows(self@);
            assert forall|row: usize| #[trigger] rows@.to_set().contains(row) == wanted.contains(row) by {
                if rows@.contains(row) {
                    let k = choose|k: int| 0 <= k < rows@.len() && rows@[k] == row;
                    assert(!self.deleted@.contains(rows@[k]));
                    let j = choose|j: int| 0 <= j < i && (#[trigger] self.changed@[j]).row == rows@[k];
                    lemma_cell(self.changed@, j);
                    assert(self@.changed.dom().contains((row, self.changed@[j].column)));
                }
                if wanted.contains(row) {
                    let column = choose|column: usize| #[trigger]
                        self@.changed.dom().contains((row, column));
                    let j = choose|j: int|
                        0 <= j < self.changed@.len() && is_about(
                            #[trigger] self.changed@[j],
                            (row, column),
                        );
                    assert(self.changed@[j].row == row);
                }
            }
            assert(rows@.to_set() =~= wanted);
            rows@.unique_seq_to_set();
            self.deleted@.unique_seq_to_set();
            vstd::seq_lib::seq_to_set_is_finite(rows@);
            vstd::seq_lib::seq_to_set_is_finite(self.deleted@);
        }
        EditCounts {
            changed: rows.len(),
            inserted: self.inserted.len(),
            deleted: self.deleted.len(),
        }
    }

    /// Which row space `row` falls in, against a base of `base_rows` rows. `None`
    /// for an index past the last inserted row, which the grid can ask for
    /// between a layout and a paint.
    pub fn locate(&self, row: usize, base_rows: usize) -> (r: Option<RowRef>)
        ensures
            r == located(self@.inserted.len(), row, base_rows),
    {
        if row < base_rows {
            return Some(RowRef::Base(row));
        }
        let index: usize = row - base_rows;
        if index < self.inserted.len() {
            Some(RowRef::Inserted(index))
        } else {
            None
        }
    }

    /// How many rows the grid sees: the base, plus the ones being added.
    pub fn row_count(&self, base_rows: usize) -> (r: usize)
        requires
            base_rows + self@.inserted.len() <= usize::MAX,
        ensures
            r == base_rows + self@.inserted.len(),
    {
        base_rows + self.inserted.len()
    }

    /// Where the entry about a cell stands.
    fn entry_of(&self, row: usize, column: usize) -> (r: Option<usize>)
        ensures
            match r {
                Some(at) => at < self.changed@.len() && is_about(
                    self.changed@[at as int],
                    (row, column),
                ),
                None => !self@.changed.dom().contains((row, column)),
            },
    {
        let mut i: usize = 0;
        while i < self.changed.len()
            invariant
                i <= self.changed@.len(),
                forall|j: int|
                    0 <= j < i ==> !is_about(#[trigger] self.changed@[j], (row, column)),
            decreases self.changed.len() - i,
        {
            if self.changed[i].row == row && self.changed[i].column == column {
                return Some(i);
            }
            i = i + 1;
        }
        None
    }

    /// Stages `value` into a base row's cell, or un-stages it.
    ///
    /// `original` is what the server gave for that cell — `None` for NULL. A
    /// value equal to it clears the entry rather than recording a change, so a
    /// cell edited `A → B → A` is clean again and no `UPDATE` names it.
    ///
    /// Answers whether anything is staged against the cell afterwards.
    pub fn stage(
        &mut self,
        row: usize,
        column: usize,
        value: StagedCell,
        original: Option<&str>,
    ) -> (r: bool)
        ensures
            final(self)@ == after_stage(
                old(self)@,
                row,
                column,
                value@,
                str_text(original),
            ),
            r == final(self)@.changed.dom().contains((row, column)),
    {
        proof {
            use_type_invariant(&*self);
        }
        let ghost cell = (row, column);
        let unset = matches!(value, StagedCell::Unset);
        let clears = unset || value.matches(original);
        let found = self.entry_of(row, column);
        let mut changed: Vec<ChangedCell> = Vec::new();
        std::mem::swap(&mut changed, &mut self.changed);
        let ghost before = changed@;
        if clears {
            let ghost gone = |k: (usize, usize)| k == cell;
            match found {
                Some(at) => {
                    changed.remove(at);
                    proof {
                        let after = changed@;
                        assert(after =~= before.remove(at as int));
                        assert forall|i: int|
                            0 <= i < before.len() && !gone(
                                ((#[trigger] before[i]).row, before[i].column),
                            ) implies after.contains(before[i]) by {
                            assert(i != at);
                            assert(after[if i < at { i } else { i - 1 }] == before[i]);
                        }
                        assert forall|j: int| 0 <= j < after.len() implies !gone(
                            ((#[trigger] after[j]).row, after[j].column),
                        ) && before.contains(after[j]) by {
                            let i = if j < at { j } else { j + 1 };
                            assert(before[i] == after[j]);
                            assert(!is_about(before[i], (before[at as int].row, before[at as int].column)));
                        }
                        lemma_drop(before, after, gone);
                        assert(cell_map(before).remove_keys(Set::new(gone)) =~= cell_map(before).remove(cell));
                    }
                },
                None => {
                    assert(cell_map(before).remove(cell) =~= cell_map(before));
                },
            }
            self.changed = changed;
            return false;
        }
        let entry = ChangedCell { row, column, value };
        match found {
            Some(at) => {
                changed.remove(at);
                changed.insert(at, entry);
                proof {
                    let after = changed@;
                    assert(after =~= before.update(at as int, entry));
                    assert forall|i: int, j: int|
                        0 <= i < after.len() && 0 <= j < after.len() && i != j implies !is_about(
                        #[trigger] after[i],
                        ((#[trigger] after[j]).row, after[j].column),
                    ) by {
                        assert(!is_about(before[i], (before[j].row, before[j].column)));
                    }
                    assert forall|i: int|
                        0 <= i < before.len() && !is_about(#[trigger] before[i], cell) implies after.contains(before[i]) by {
                        assert(after[i] == before[i]);
                    }
                    assert forall|j: int| 0 <= j < after.len() && j != at implies before.contains(#[trigger] after[j]) by {
                        assert(before[j] == after[j]);
                    }
                    lemma_put(before, after, at as int, cell);
                }
            },
            None => {
                changed.push(entry);
                proof {
                    let after = changed@;
                    let at = before.len() as int;
                    assert forall|i: int, j: int|
                        0 <= i < after.len() && 0 <= j < after.len() && i != j implies !is_about(
                        #[trigger] after[i],
                        ((#[trigger] after[j]).row, after[j].column),
                    ) by {
                        if i < at && j < at {
                            assert(!is_about(before[i], (before[j].row, before[j].column)));
                        } else if i < at {
                            lemma_cell(before, i);
                        } else {
                            lemma_cell(before, j);
                        }
                    }
                    assert forall|i: int|
                        0 <= i < before.len() && !is_about(#[trigger] before[i], cell) implies after.contains(before[i]) by {
                        assert(after[i] == before[i]);
                    }
                    assert forall|j: int| 0 <= j < after.len() && j != at implies before.contains(#[trigger] after[j]) by {
                        assert(0 <= j < before.len() && before[j] == after[j]);
                    }
                    lemma_put(before, after, at, cell);
                }
            },
        }
        self.changed = changed;
        true
    }

    /// What is staged against a base row's cell, if anything.
    pub fn staged(&self, row: usize, column: usize) -> (r: Option<&StagedCell>)
        ensures
            match r {
                Some(cell) => self@.changed.dom().contains((row, column)) && cell@
                    == self@.changed[(row, column)] && cell@ != StagedText::Unset,
                None => !self@.changed.dom().contains((row, column)),
            },
    {
        proof {
            use_type_invariant(self);
        }
        match self.entry_of(row, column) {
            Some(at) => {
                proof {
                    lemma_cell(self.changed@, at as int);
                }
                Some(&self.changed[at].value)
            },
            None => None,
        }
    }

    /// Whether a base row is staged to be deleted.
    pub fn is_deleted(&self, row: usize) -> (r: bool)
        ensures
            r == self@.deleted.contains(row),
    {
        holds_row(&self.deleted, row)
    }

    /// Marks a base row for deletion, or takes the mark off, and says which it
    /// did. The edits staged against the row are left alone either way.
    pub fn toggle_deleted(&mut self, row: usize) -> (r: bool)
        ensures
            final(self)@ == after_toggle(old(self)@, row),
            r == final(self)@.deleted.contains(row),
    {
        proof {
            use_type_invariant(&*self);
        }
        let mut deleted: Vec<usize> = Vec::new();
        std::mem::swap(&mut deleted, &mut self.deleted);
        if drop_row(&mut deleted, row) {
            self.deleted = deleted;
            false
        } else {
            insert_row(&mut deleted, row);
            self.deleted = deleted;
            true
        }
    }

    /// Appends a row of `columns` columns, every one of them left to the server,
    /// and answers its position in the insert list.
    pub fn add_insert(&mut self, columns: usize) -> (r: usize)
        ensures
            final(self)@ == (Staged {
                inserted: old(self)@.inserted.push(
                    Seq::new(columns as nat, |i: int| StagedText::Unset),
                ),
                ..old(self)@
            }),
            r == old(self)@.inserted.len(),
    {
        let mut row: Vec<StagedCell> = Vec::new();
        let mut i: usize = 0;
        while i < columns
            invariant
                i <= columns,
                row@.len() == i,
                forall|k: int| 0 <= k < i ==> (#[trigger] row@[k])@ == StagedText::Unset,
            decreases columns - i,
        {
            row.push(StagedCell::Unset);
            i = i + 1;
        }
        let ghost before = self@.inserted;
        let at: usize = self.inserted.len();
        proof {
            use_type_invariant(&*self);
        }
        let mut inserted: Vec<Vec<StagedCell>> = Vec::new();
        std::mem::swap(&mut inserted, &mut self.inserted);
        inserted.push(row);
        self.inserted = inserted;
        assert(row_cells(row@) =~= Seq::new(columns as nat, |i: int| StagedText::Unset));
        assert(self@.inserted =~= before.push(row_cells(row@)));
        at
    }

    /// Puts `value` into a cell of an inserted row. A row or a column that is not
    /// there is ignored.
    pub fn stage_inserted(&mut self, index: usize, column: usize, value: StagedCell)
        ensures
            final(self)@ == (if index < old(self)@.inserted.len() && column
                < old(self)@.inserted[index as int].len() {
                Staged {
                    inserted: old(self)@.inserted.update(
                        index as int,
                        old(self)@.inserted[index as int].update(column as int, value@),
                    ),
                    ..old(self)@
                }
            } else {
                old(self)@
            }),
    {
        let ghost before = self@.inserted;
        if index < self.inserted.len() && column < self.inserted[index].len() {
            proof {
                use_type_invariant(&*self);
            }
            let mut inserted: Vec<Vec<StagedCell>> = Vec::new();
            std::mem::swap(&mut inserted, &mut self.inserted);
            let mut row = inserted.remove(index);
            let ghost cells = row@;
            row.remove(column);
            row.insert(column, value);
            assert(row_cells(row@) =~= row_cells(cells).update(column as int, value@));
            inserted.insert(index, row);
            self.inserted = inserted;
            assert(self@.inserted =~= before.update(
                index as int,
                before[index as int].update(column as int, value@),
            ));
        }
    }

    /// What an inserted row's cell holds.
    pub fn inserted_cell(&self, index: usize, column: usize) -> (r: Option<&StagedCell>)
        ensures
            match r {
                Some(cell) => index < self@.inserted.len() && column
                    < self@.inserted[index as int].len() && cell@
                    == self@.inserted[index as int][column as int],
                None => !(index < self@.inserted.len() && column
                    < self@.inserted[index as int].len()),
            },
    {
        if index < self.inserted.len() && column < self.inserted[index].len() {
            Some(&self.inserted[index][column])
        } else {
            None
        }
    }

    /// Whether any cell of a base row is changed.
    fn row_changed(&self, row: usize) -> (r: bool)
        ensures
            r == exists|column: usize| #[trigger] self@.changed.dom().contains((row, column)),
    {
        proof {
            use_type_invariant(self);
        }
        let mut i: usize = 0;
        while i < self.changed.len()
            invariant
                i <= self.changed@.len(),
                cells_differ(self.changed@),
                forall|j: int| 0 <= j < i ==> (#[trigger] self.changed@[j]).row != row,
            decreases self.changed.len() - i,
        {
            if self.changed[i].row == row {
                proof {
                    lemma_cell(self.changed@, i as int);
                }
                assert(self@.changed.dom().contains((row, self.changed@[i as int].column)));
                return true;
            }
            i = i + 1;
        }
        false
    }

    /// Throws away everything staged against one row, and says whether there was
    /// anything.
    ///
    /// On a base row that is the edits and the deletion mark both. On an inserted
    /// row it is the row itself, and the ones after it slide up.
    pub fn discard_row(&mut self, row: usize, base_rows: usize) -> (r: bool)
        ensures
            final(self)@ == after_discard(old(self)@, row, base_rows),
            r == row_staged(old(self)@, row, base_rows),
    {
        let ghost start = self@;
        match self.locate(row, base_rows) {
            Some(RowRef::Base(row)) => {
                let had_edits = self.row_changed(row);
                proof {
                    use_type_invariant(&*self);
                }
                let mut deleted: Vec<usize> = Vec::new();
                std::mem::swap(&mut deleted, &mut self.deleted);
                let had_mark = drop_row(&mut deleted, row);
                self.deleted = deleted;
                let kept = without_row(&self.changed, row);
                self.changed = kept;
                had_mark || had_edits
            },
            Some(RowRef::Inserted(index)) => {
                proof {
                    use_type_invariant(&*self);
                }
                let mut inserted: Vec<Vec<StagedCell>> = Vec::new();
                std::mem::swap(&mut inserted, &mut self.inserted);
                inserted.remove(index);
                self.inserted = inserted;
                assert(self@.inserted =~= start.inserted.remove(index as int));
                true
            },
            None => false,
        }
    }

    /// Throws everything away.
    pub fn discard_all(&mut self)
        ensures
            final(self)@ == no_edits(),
    {
        let empty = EditSet::new();
        *self = empty;
    }

    /// How a row is marked, against a base of `base_rows` rows.
    pub fn status(&self, row: usize, base_rows: usize) -> (r: RowStatus)
        ensures
            r == status_of(self@, row, base_rows),
    {
        match self.locate(row, base_rows) {
            Some(RowRef::Base(row)) => if self.is_deleted(row) {
                RowStatus::Deleted
            } else if self.row_changed(row) {
                RowStatus::Modified
            } else {
                RowStatus::Unchanged
            },
            Some(RowRef::Inserted(_)) => RowStatus::Inserted,
            None => RowStatus::Unchanged,
        }
    }

    /// Whether one cell carries a value the server has not seen.
    pub fn cell_dirty(&self, row: usize, column: usize, base_rows: usize) -> (r: bool)
        ensures
            r == dirty(self@, row, column, base_rows),
    {
        match self.locate(row, base_rows) {
            Some(RowRef::Base(row)) => self.entry_dirty(row, column),
            Some(RowRef::Inserted(index)) => match self.inserted_cell(index, column) {
                Some(StagedCell::Unset) => false,
                Some(_) => true,
                None => false,
            },
            None => false,
        }
    }

    /// Whether a base cell is changed.
    fn entry_dirty(&self, row: usize, column: usize) -> (r: bool)
        ensures
            r == self@.changed.dom().contains((row, column)),
    {
        self.staged(row, column).is_some()
    }
}

impl Default for EditSet {
    fn default() -> (r: Self)
        ensures
            r@ == no_edits(),
    {
        EditSet::new()
    }
}

/// Whether `rows` holds `row`.
fn holds_row(rows: &Vec<usize>, row: usize) -> (r: bool)
    ensures
        r == rows@.contains(row),
{
    let mut i: usize = 0;
    while i < rows.len()
        invariant
            i <= rows@.len(),
            forall|k: int| 0 <= k < i ==> rows@[k] != row,
        decreases rows.len() - i,
    {
        if rows[i] == row {
            return true;
        }
        i = i + 1;
    }
    false
}

/// Takes `row` out of an ascending list, and says whether it was in it.
fn drop_row(rows: &mut Vec<usize>, row: usize) -> (r: bool)
    requires
        ascending(old(rows)@),
    ensures
        ascending(final(rows)@),
        final(rows)@.to_set() == old(rows)@.to_set().remove(row),
        r == old(rows)@.contains(row),
        !r ==> final(rows)@ == old(rows)@,
{
    let ghost before = rows@;
    let mut i: usize = 0;
    while i < rows.len()
        invariant
            i <= rows@.len(),
            rows@ == before,
            before == old(rows)@,
            ascending(before),
            forall|k: int| 0 <= k < i ==> rows@[k] != row,
        decreases rows.len() - i,
    {
        if rows[i] == row {
            rows.remove(i);
            proof {
                let after = rows@;
                assert(before.contains(row)) by {
                    assert(before[i as int] == row);
                }
                assert forall|r: usize| #[trigger] after.to_set().contains(r)
                    == before.to_set().remove(row).contains(r) by {
                    if after.contains(r) {
                        let k = choose|k: int| 0 <= k < after.len() && after[k] == r;
                        assert(before[if k < i { k } else { k + 1 }] == r);
                    }
                    if before.contains(r) && r != row {
                        let k = choose|k: int| 0 <= k < before.len() && before[k] == r;
                        assert(after[if k < i { k } else { k - 1 }] == r);
                    }
                }
                assert(after.to_set() =~= before.to_set().remove(row));
            }
            return true;
        }
        i = i + 1;
    }
    assert(before.to_set() =~= before.to_set().remove(row));
    false
}

/// Puts `row` where it belongs in an ascending list that does not hold it.
fn insert_row(rows: &mut Vec<usize>, row: usize)
    requires
        ascending(old(rows)@),
        !old(rows)@.contains(row),
    ensures
        ascending(final(rows)@),
        final(rows)@.to_set() == old(rows)@.to_set().insert(row),
{
    let ghost before = rows@;
    let mut at: usize = 0;
    while at < rows.len() && rows[at] < row
        invariant
            at <= rows@.len(),
            rows@ == before,
            forall|k: int| 0 <= k < at ==> rows@[k] < row,
        decreases rows.len() - at,
    {
        at = at + 1;
    }
    assert forall|k: int| at <= k < before.len() implies row < before[k] by {
        assert(before[k] != row);
        if k > at {
            assert(before[at as int] < before[k]);
        }
    }
    rows.insert(at, row);
    proof {
        let after = rows@;
        assert forall|r: usize| #[trigger] after.to_set().contains(r)
            == before.to_set().insert(row).contains(r) by {
            if after.contains(r) && r != row {
                let k = choose|k: int| 0 <= k < after.len() && after[k] == r;
                assert(before[if k < at { k } else { k - 1 }] == r);
            }
            if before.contains(r) {
                let k = choose|k: int| 0 <= k < before.len() && before[k] == r;
                assert(after[if k < at { k } else { k + 1 }] == r);
            }
            assert(after[at as int] == row);
        }
        assert(after.to_set() =~= before.to_set().insert(row));
    }
}

/// A copy of a staged cell.
pub fn copy_cell(cell: &StagedCell) -> (r: StagedCell)
    ensures
        r == *cell,
{
    match cell {
        StagedCell::Unset => StagedCell::Unset,
        StagedCell::Null => StagedCell::Null,
        StagedCell::Text(text) => StagedCell::Text(text.clone()),
    }
}

/// The entries that are not about `row`.
fn without_row(entries: &Vec<ChangedCell>, row: usize) -> (r: Vec<ChangedCell>)
    requires
        cells_differ(entries@),
    ensures
        cells_differ(r@),
        cell_map(r@) == cell_map(entries@).remove_keys(
            Set::new(|cell: (usize, usize)| cell.0 == row),
        ),
{
    let mut out: Vec<ChangedCell> = Vec::new();
    let ghost mut origin: Seq<int> = Seq::empty();
    let mut i: usize = 0;
    while i < entries.len()
        invariant
            i <= entries@.len(),
            cells_differ(entries@),
            origin.len() == out@.len(),
            forall|k: int|
                0 <= k < out@.len() ==> 0 <= #[trigger] origin[k] < i && out@[k] == entries@[origin[k]]
                    && out@[k].row != row,
            forall|k: int, l: int| 0 <= k < l < origin.len() ==> origin[k] < origin[l],
            forall|j: int|
                0 <= j < i && (#[trigger] entries@[j]).row != row ==> out@.contains(
                    entries@[j],
                ),
        decreases entries.len() - i,
    {
        if entries[i].row != row {
            let entry = ChangedCell {
                row: entries[i].row,
                column: entries[i].column,
                value: copy_cell(&entries[i].value),
            };
            let ghost before = out@;
            out.push(entry);
            proof {
                origin = origin.push(i as int);
                assert(out@[before.len() as int] == entries@[i as int]);
                assert forall|j: int|
                    0 <= j < i + 1 && (#[trigger] entries@[j]).row != row implies out@.contains(
                    entries@[j],
                ) by {
                    if j < i {
                        let k = choose|k: int| 0 <= k < before.len() && before[k] == entries@[j];
                        assert(out@[k] == entries@[j]);
                    }
                }
            }
        }
        i = i + 1;
    }
    proof {
        assert forall|a: int, b: int|
            0 <= a < out@.len() && 0 <= b < out@.len() && a != b implies !is_about(
            #[trigger] out@[a],
            ((#[trigger] out@[b]).row, out@[b].column),
        ) by {
            if a < b {
                assert(origin[a] < origin[b]);
            } else {
                assert(origin[b] < origin[a]);
            }
            assert(!is_about(
                entries@[origin[a]],
                (entries@[origin[b]].row, entries@[origin[b]].column),
            ));
        }
        assert forall|a: int| 0 <= a < out@.len() implies (#[trigger] out@[a]).value@
            != StagedText::Unset by {
            assert(out@[a] == entries@[origin[a]]);
        }
        let gone = |cell: (usize, usize)| cell.0 == row;
        assert forall|j: int| 0 <= j < out@.len() implies !gone(
            ((#[trigger] out@[j]).row, out@[j].column),
        ) && entries@.contains(out@[j]) by {
            assert(entries@[origin[j]] == out@[j]);
        }
        lemma_drop(entries@, out@, gone);
        assert(Set::new(gone) =~= Set::new(|cell: (usize, usize)| cell.0 == row));
    }
    out
}

/// What one column will and will not accept.
#[derive(Clone, Copy, Debug, PartialEq, Eq, Structural)]
pub struct ColumnRules {
    /// Whether a value may be written into it at all: not into a column the
    /// driver reports read-only, and not into an auto-increment key, which the
    /// server generates only when it is left out.
    pub writable: bool,
    /// Whether the catalogue allows NULL. An unknown answer is taken as yes.
    pub nullable: bool,
}

/// The one answer about a column that forbids NULL.
pub const COLUMN_NO_NULLS: i32 = 0;

/// What a column will and will not accept.
pub open spec fn rules_of(column: ColumnInfo) -> ColumnRules {
    ColumnRules {
        writable: !column.read_only && !column.auto_increment,
        nullable: column.nullable != COLUMN_NO_NULLS,
    }
}

impl ColumnRules {
    /// What a column will and will not accept.
    pub fn of(column: &ColumnInfo) -> (r: Self)
        ensures
            r == rules_of(*column),
    {
        ColumnRules {
            writable: !column.read_only && !column.auto_increment,
            nullable: column.nullable != COLUMN_NO_NULLS,
        }
    }
}

/// The rows as the grid sees them: what the server sent, with the staging buffer
/// laid over it.
#[derive(Debug)]
pub struct EditableSource {
    /// The rows the server sent.
    pub base: ResultSource,
    /// What is staged over them.
    pub edits: EditSet,
    /// What each column accepts.
    pub columns: Vec<ColumnRules>,
    /// Whether the pane as a whole may be written to.
    pub writable: bool,
}

/// What a staged value shows in a base cell, over what the server sent.
pub open spec fn overlaid(staged: Staged, rows: Seq<Vec<crate::grid::SourceCell>>, row: usize, column: usize) -> CellText {
    match located(staged.inserted.len(), row, rows.len() as usize) {
        Some(RowRef::Base(row)) => if staged.changed.dom().contains((row, column)) {
            match staged.changed[(row, column)] {
                StagedText::Text(text) => CellText::Text(text),
                StagedText::Null => CellText::Null,
                StagedText::Unset => cell_at(rows, row, column),
            }
        } else {
            cell_at(rows, row, column)
        },
        Some(RowRef::Inserted(index)) => if column < staged.inserted[index as int].len() {
            match staged.inserted[index as int][column as int] {
                StagedText::Text(text) => CellText::Text(text),
                StagedText::Null => CellText::Null,
                StagedText::Unset => CellText::Default,
            }
        } else {
            CellText::Default
        },
        None => CellText::Null,
    }
}

/// What an edit of a base cell is compared against: its text, and nothing for a
/// NULL or a large object.
pub open spec fn compared(cell: CellText) -> Option<Seq<char>> {
    match cell {
        CellText::Text(text) => Some(text),
        _ => None,
    }
}

/// What is staged once `value` went into the cell the grid shows at a place.
pub open spec fn after_source_stage(
    staged: Staged,
    rows: Seq<Vec<crate::grid::SourceCell>>,
    row: usize,
    column: usize,
    value: StagedText,
) -> Staged {
    match located(staged.inserted.len(), row, rows.len() as usize) {
        Some(RowRef::Base(row)) => after_stage(
            staged,
            row,
            column,
            value,
            compared(cell_at(rows, row, column)),
        ),
        Some(RowRef::Inserted(index)) => if column < staged.inserted[index as int].len() {
            Staged {
                inserted: staged.inserted.update(
                    index as int,
                    staged.inserted[index as int].update(column as int, value),
                ),
                ..staged
            }
        } else {
            staged
        },
        None => staged,
    }
}

impl EditableSource {
    /// An overlay over `base`, whose columns are described by `columns`.
    /// `writable` is the pane's answer to "may anything here be changed at all".
    pub fn new(base: ResultSource, columns: &Vec<ColumnInfo>, writable: bool) -> (r: Self)
        ensures
            r.base == base,
            r.edits@ == no_edits(),
            r.columns@.len() == columns@.len(),
            forall|i: int|
                0 <= i < columns@.len() ==> #[trigger] r.columns@[i] == rules_of(columns@[i]),
            r.writable == writable,
    {
        let mut rules: Vec<ColumnRules> = Vec::new();
        let mut i: usize = 0;
        while i < columns.len()
            invariant
                i <= columns@.len(),
                rules@.len() == i,
                forall|k: int| 0 <= k < i ==> #[trigger] rules@[k] == rules_of(columns@[k]),
            decreases columns.len() - i,
        {
            rules.push(ColumnRules::of(&columns[i]));
            i = i + 1;
        }
        EditableSource { base, edits: EditSet::new(), columns: rules, writable }
    }

    /// The rows the server sent, to append another page to.
    pub fn base_mut(&mut self) -> (r: &mut ResultSource)
        ensures
            *r == old(self).base,
            *final(self) == (EditableSource { base: *final(r), ..*old(self) }),
    {
        &mut self.base
    }

    /// What is staged.
    pub fn edits(&self) -> (r: &EditSet)
        ensures
            *r == self.edits,
    {
        &self.edits
    }

    /// What is staged, to change.
    pub fn edits_mut(&mut self) -> (r: &mut EditSet)
        ensures
            *r == old(self).edits,
            *final(self) == (EditableSource { edits: *final(r), ..*old(self) }),
    {
        &mut self.edits
    }

    /// How many rows the server sent, which is where the inserted ones begin.
    pub fn base_rows(&self) -> (r: usize)
        ensures
            r == self.base.rows@.len(),
    {
        self.base.row_count()
    }

    /// Says whether more rows are coming, or one is on its way.
    pub fn set_state(&mut self, state: GridSourceState)
        ensures
            final(self).base == (ResultSource { state, ..old(self).base }),
            *final(self) == (EditableSource { base: final(self).base, ..*old(self) }),
    {
        self.base.set_state(state);
    }

    /// The value the server gave for a cell, whatever is staged over it. `None`
    /// for an inserted row, which the server has never seen.
    pub fn original(&self, row: usize, column: usize) -> (r: Option<GridCell<'_>>)
        ensures
            match r {
                Some(cell) => row < self.base.rows@.len() && cell@ == cell_at(
                    self.base.rows@,
                    row,
                    column,
                ),
                None => row >= self.base.rows@.len(),
            },
    {
        if row < self.base.row_count() {
            Some(self.base.cell(row, column))
        } else {
            None
        }
    }

    /// The base cell's text, in the form [`EditSet::stage`] compares against.
    fn original_text(&self, row: usize, column: usize) -> (r: Option<&str>)
        ensures
            str_text(r) == compared(cell_at(self.base.rows@, row, column)),
    {
        match self.base.cell(row, column) {
            GridCell::Text(text) => Some(text),
            GridCell::Null => None,
            GridCell::Default => None,
            GridCell::Lob { .. } => None,
        }
    }

    /// Stages `value` into whichever row space `row` names.
    pub fn stage(&mut self, row: usize, column: usize, value: StagedCell)
        ensures
            final(self).edits@ == after_source_stage(
                old(self).edits@,
                old(self).base.rows@,
                row,
                column,
                value@,
            ),
            final(self).base == old(self).base,
            final(self).columns == old(self).columns,
            final(self).writable == old(self).writable,
    {
        match self.edits.locate(row, self.base.row_count()) {
            Some(RowRef::Base(row)) => {
                let original: Option<String> = match self.original_text(row, column) {
                    Some(text) => Some(text.to_owned()),
                    None => None,
                };
                self.edits.stage(row, column, value, crate::text::as_text(&original));
            },
            Some(RowRef::Inserted(index)) => {
                self.edits.stage_inserted(index, column, value);
            },
            None => {},
        }
    }

    /// Whether the column at `column` will take a NULL.
    pub fn nullable(&self, column: usize) -> (r: bool)
        ensures
            r == (column < self.columns@.len() && self.columns@[column as int].nullable),
    {
        column < self.columns.len() && self.columns[column].nullable
    }

    /// Whether anything here may be changed at all.
    pub fn writable(&self) -> (r: bool)
        ensures
            r == self.writable,
    {
        self.writable
    }

    /// How many columns the grid draws.
    pub fn column_count(&self) -> (r: usize)
        ensures
            r == self.base.columns@.len(),
    {
        self.base.column_count()
    }

    /// One column heading, as the rows underneath have it.
    pub fn column(&self, index: usize) -> (r: &GridColumn)
        requires
            index < self.base.columns@.len(),
        ensures
            *r == self.base.columns@[index as int],
    {
        &self.base.columns[index]
    }

    /// How many rows the grid draws.
    pub fn row_count(&self) -> (r: usize)
        requires
            self.base.rows@.len() + self.edits@.inserted.len() <= usize::MAX,
        ensures
            r == self.base.rows@.len() + self.edits@.inserted.len(),
    {
        self.edits.row_count(self.base.row_count())
    }

    /// What one cell shows: the staged value where there is one, and what the
    /// server sent elsewhere.
    pub fn cell(&self, row: usize, column: usize) -> (r: GridCell<'_>)
        ensures
            r@ == overlaid(self.edits@, self.base.rows@, row, column),
    {
        match self.edits.locate(row, self.base.row_count()) {
            Some(RowRef::Base(row)) => match self.edits.staged(row, column) {
                Some(StagedCell::Text(text)) => GridCell::Text(text.as_str()),
                Some(StagedCell::Null) => GridCell::Null,
                Some(StagedCell::Unset) => self.base.cell(row, column),
                None => self.base.cell(row, column),
            },
            Some(RowRef::Inserted(index)) => match self.edits.inserted_cell(index, column) {
                Some(StagedCell::Text(text)) => GridCell::Text(text.as_str()),
                Some(StagedCell::Null) => GridCell::Null,
                Some(StagedCell::Unset) => GridCell::Default,
                None => GridCell::Default,
            },
            None => GridCell::Null,
        }
    }

    /// Whether more rows are coming.
    pub fn state(&self) -> (r: GridSourceState)
        ensures
            r == self.base.state,
    {
        self.base.state
    }

    /// How a row is marked.
    pub fn row_status(&self, row: usize) -> (r: RowStatus)
        ensures
            r == status_of(self.edits@, row, self.base.rows@.len() as usize),
    {
        self.edits.status(row, self.base.row_count())
    }

    /// Whether one cell carries a value the server has not seen.
    pub fn cell_dirty(&self, row: usize, column: usize) -> (r: bool)
        ensures
            r == dirty(self.edits@, row, column, self.base.rows@.len() as usize),
    {
        self.edits.cell_dirty(row, column, self.base.row_count())
    }

    /// Whether a cell takes typing. A row on its way out takes no more, and a
    /// large object never does.
    pub fn cell_editable(&self, row: usize, column: usize) -> (r: bool)
        ensures
            r == (self.writable && column < self.columns@.len()
                && self.columns@[column as int].writable && match located(
                self.edits@.inserted.len(),
                row,
                self.base.rows@.len() as usize,
            ) {
                Some(RowRef::Base(row)) => !self.edits@.deleted.contains(row) && !(cell_at(
                    self.base.rows@,
                    row,
                    column,
                ) is Lob),
                Some(RowRef::Inserted(_)) => true,
                None => false,
            }),
    {
        if !self.writable {
            return false;
        }
        if !(column < self.columns.len() && self.columns[column].writable) {
            return false;
        }
        match self.edits.locate(row, self.base.row_count()) {
            Some(RowRef::Base(row)) => !self.edits.is_deleted(row) && !matches!(
                self.base.cell(row, column),
                GridCell::Lob { .. }
            ),
            Some(RowRef::Inserted(_)) => true,
            None => false,
        }
    }
}

/// A cell edited and then put back to what the server sent is clean: whatever was
/// staged in between, nothing is staged against it afterwards, and where nothing
/// was before, everything is as it was.
pub proof fn walking_back_leaves_nothing(
    staged: Staged,
    row: usize,
    column: usize,
    between: StagedText,
    back: StagedText,
    original: Option<Seq<char>>,
)
    requires
        staged_matches(back, original),
    ensures
        ({
            let after = after_stage(
                after_stage(staged, row, column, between, original),
                row,
                column,
                back,
                original,
            );
            &&& !after.changed.dom().contains((row, column))
            &&& !staged.changed.dom().contains((row, column)) ==> after == staged
        }),
{
    let after = after_stage(
        after_stage(staged, row, column, between, original),
        row,
        column,
        back,
        original,
    );
    if !staged.changed.dom().contains((row, column)) {
        assert(after.changed =~= staged.changed);
    }
}

/// Marking a row for deletion and taking the mark off gives back what was there,
/// the edits of the row with it.
pub proof fn undeleting_restores(staged: Staged, row: usize)
    ensures
        after_toggle(after_toggle(staged, row), row) == staged,
        after_toggle(staged, row).changed == staged.changed,
{
    assert(after_toggle(after_toggle(staged, row), row).deleted =~= staged.deleted);
}

/// The counter counts the rows that are marked as modified, and the rows to be
/// deleted are the ones marked so: as many statements as there are marks.
pub proof fn counts_are_the_marked_rows(staged: Staged, row: usize, base_rows: usize)
    requires
        row < base_rows,
    ensures
        edited_rows(staged).contains(row) <==> status_of(staged, row, base_rows)
            == RowStatus::Modified,
        staged.deleted.contains(row) <==> status_of(staged, row, base_rows) == RowStatus::Deleted,
{
}

/// Another page leaves the base rows where they were and slides the inserted rows
/// down by its length, with what they hold and how they are marked.
pub proof fn a_page_moves_the_inserted_rows(
    staged: Staged,
    rows: Seq<Vec<crate::grid::SourceCell>>,
    page: Seq<Vec<crate::grid::SourceCell>>,
    row: usize,
    column: usize,
)
    requires
        rows.len() + page.len() + staged.inserted.len() <= usize::MAX,
        row < rows.len() + staged.inserted.len(),
    ensures
        ({
            let moved = if row < rows.len() {
                row
            } else {
                (row + page.len()) as usize
            };
            &&& overlaid(staged, rows + page, moved, column) == overlaid(staged, rows, row, column)
            &&& status_of(staged, moved, (rows + page).len() as usize) == status_of(
                staged,
                row,
                rows.len() as usize,
            )
            &&& dirty(staged, moved, column, (rows + page).len() as usize) == dirty(
                staged,
                row,
                column,
                rows.len() as usize,
            )
        }),
{
}

/// Discarding one base row leaves every other row as it is: its mark, and what
/// each of its cells shows.
pub proof fn discarding_a_row_keeps_the_others(
    staged: Staged,
    rows: Seq<Vec<crate::grid::SourceCell>>,
    gone: usize,
    row: usize,
    column: usize,
)
    requires
        rows.len() + staged.inserted.len() <= usize::MAX,
        gone < rows.len(),
        row != gone,
    ensures
        ({
            let after = after_discard(staged, gone, rows.len() as usize);
            &&& status_of(after, row, rows.len() as usize) == status_of(
                staged,
                row,
                rows.len() as usize,
            )
            &&& overlaid(after, rows, row, column) == overlaid(staged, rows, row, column)
        }),
{
    let after = after_discard(staged, gone, rows.len() as usize);
    assert forall|column: usize| #[trigger] after.changed.dom().contains((row, column))
        == staged.changed.dom().contains((row, column)) by {}
    if edited_rows(staged).contains(row) {
        let c = choose|c: usize| #[trigger] staged.changed.dom().contains((row, c));
        assert(after.changed.dom().contains((row, c)));
    }
}

/// A discarded base row shows what the server sent and carries no mark.
pub proof fn a_discarded_row_is_clean(
    staged: Staged,
    rows: Seq<Vec<crate::grid::SourceCell>>,
    row: usize,
    column: usize,
)
    requires
        rows.len() <= usize::MAX,
        row < rows.len(),
    ensures
        ({
            let after = after_discard(staged, row, rows.len() as usize);
            &&& status_of(after, row, rows.len() as usize) == RowStatus::Unchanged
            &&& overlaid(after, rows, row, column) == cell_at(rows, row, column)
        }),
{
}

/// Where nothing is staged against a cell, the grid shows what the server sent.
pub proof fn an_untouched_cell_shows_the_server(
    staged: Staged,
    rows: Seq<Vec<crate::grid::SourceCell>>,
    row: usize,
    column: usize,
)
    requires
        rows.len() <= usize::MAX,
        row < rows.len(),
        !dirty(staged, row, column, rows.len() as usize),
    ensures
        overlaid(staged, rows, row, column) == cell_at(rows, row, column),
{
}

} // verus!
