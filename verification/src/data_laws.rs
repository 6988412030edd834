//! What holds of the data pane as a whole.

use vstd::prelude::*;

use crate::context_menu::{copy_menu, GridCommand, MenuText, SortDirection};
use crate::data_edit::{
    after_discard, after_source_stage, after_toggle, compared, dirty, edited_rows, located,
    nothing_staged, overlaid, row_staged, rules_of, staged_matches, status_of, RowRef,
    RowStatus, Staged, StagedCell, StagedText,
};
use crate::data_pane::{
    body_of, cell_menu, counts_of, data_buttons, first_rows, layers_of, loading_again, notice_text,
    one_modal, pending, plans, problem_of, reading_only, refreshed, restaged, same_but_load,
    saying, select_text, shows, staged_in, takes_field, takes_null, ApplyFailure, ApplyMessage,
    ApplyStop, DataBody, DataPane, GridLook, Layer, Load, Notice, Opened, Order, Rows, Step,
};
use crate::grid::{cell_at, CellText, ColumnInfo, GridSourceState, SourceCell};
use crate::text::{decimal, texts};
use crate::view::{plain, ButtonVariant, CaptionText, LabelText};

verus! {

/// The counts are shown exactly where there is something to lose: a pane that
/// shows none has nothing staged, and one that shows some has.
pub proof fn what_is_counted_is_what_is_staged(staged: Staged)
    requires
        edited_rows(staged).finite(),
        staged.deleted.finite(),
    ensures
        counts_of(staged) is Some <==> !nothing_staged(staged),
{
    if nothing_staged(staged) {
        assert(edited_rows(staged) =~= Set::<usize>::empty());
    } else if counts_of(staged) is None {
        edited_rows(staged).lemma_len0_is_empty();
        staged.deleted.lemma_len0_is_empty();
        assert forall|at: (usize, usize)| !#[trigger] staged.changed.dom().contains(at) by {
            if staged.changed.dom().contains(at) {
                assert(staged.changed.dom().contains((at.0, at.1)));
                assert(edited_rows(staged).contains(at.0));
            }
        }
        assert(staged.changed.dom() =~= Set::<(usize, usize)>::empty());
    }
}

/// Staged changes are never lost to a refresh: while there are any it asks for
/// nothing, changes nothing but what the pane says, and says why.
pub proof fn a_refresh_keeps_staged_changes(pane: DataPane)
    requires
        pending(pane.load),
    ensures
        refreshed(pane).1 is None,
        refreshed(pane).0 == (DataPane { notice: Some(Notice::DiscardFirst), ..pane }),
{
}

/// A load that is asked for carries a number no load before it carried, so that
/// an answer to an older one can be told apart; and nothing that was about the
/// old rows outlives them.
pub proof fn a_load_starts_over(pane: DataPane)
    requires
        pane.generation < u64::MAX,
    ensures
        loading_again(pane).generation > pane.generation,
        one_modal(loading_again(pane)),
        loading_again(pane).preview is None,
        loading_again(pane).context_menu is None,
        loading_again(pane).apply_error is None,
        !pending(loading_again(pane).load),
{
}

/// A text put into a cell of the table is what the cell shows from there on, and so
/// is a NULL unless the cell holds a large object; taking a value back shows what
/// the server sent. The cell counts as changed exactly where the value is another
/// than the server's. Every other cell, every mark and every new row stays.
pub proof fn a_cell_shows_what_was_put_into_it(
    staged: Staged,
    rows: Seq<Vec<SourceCell>>,
    row: usize,
    column: usize,
    value: StagedText,
    other: (usize, usize),
)
    requires
        rows.len() + staged.inserted.len() <= usize::MAX,
        row < rows.len(),
        other != (row, column),
    ensures
        ({
            let after = after_source_stage(staged, rows, row, column, value);
            let sent = cell_at(rows, row, column);
            let shown = overlaid(after, rows, row, column);
            &&& value matches StagedText::Text(text) ==> shown == CellText::Text(text)
            &&& value is Null ==> shown == if sent is Text {
                CellText::Null
            } else {
                sent
            }
            &&& value is Unset ==> shown == sent
            &&& dirty(after, row, column, rows.len() as usize) <==> match value {
                StagedText::Text(text) => sent != CellText::Text(text),
                StagedText::Null => sent is Text,
                StagedText::Unset => false,
            }
            &&& overlaid(after, rows, other.0, other.1) == overlaid(staged, rows, other.0, other.1)
            &&& dirty(after, other.0, other.1, rows.len() as usize) == dirty(
                staged,
                other.0,
                other.1,
                rows.len() as usize,
            )
            &&& after.deleted == staged.deleted
            &&& after.inserted == staged.inserted
        }),
{
}

/// What is put into a cell of a new row is what that cell shows, and a cell nothing
/// was put into shows that the column's default is to come. Everything else stays.
pub proof fn a_new_row_shows_what_was_put_into_it(
    staged: Staged,
    rows: Seq<Vec<SourceCell>>,
    index: int,
    column: usize,
    value: StagedText,
    other: (usize, usize),
)
    requires
        rows.len() + staged.inserted.len() <= usize::MAX,
        0 <= index < staged.inserted.len(),
        column < staged.inserted[index].len(),
        other != ((rows.len() + index) as usize, column),
    ensures
        ({
            let row = (rows.len() + index) as usize;
            let after = after_source_stage(staged, rows, row, column, value);
            &&& overlaid(after, rows, row, column) == match value {
                StagedText::Text(text) => CellText::Text(text),
                StagedText::Null => CellText::Null,
                StagedText::Unset => CellText::Default,
            }
            &&& dirty(after, row, column, rows.len() as usize) <==> !(value is Unset)
            &&& overlaid(after, rows, other.0, other.1) == overlaid(staged, rows, other.0, other.1)
            &&& after.changed == staged.changed
            &&& after.deleted == staged.deleted
            &&& after.inserted.len() == staged.inserted.len()
        }),
{
    let row = (rows.len() + index) as usize;
    let after = after_source_stage(staged, rows, row, column, value);
    assert(after.inserted[index][column as int] == value);
    match located(staged.inserted.len(), other.0, rows.len() as usize) {
        Some(RowRef::Inserted(at)) => {
            if at as int != index {
                assert(after.inserted[at as int] == staged.inserted[at as int]);
            }
        },
        _ => {},
    }
}

/// A row is found where it stands: the rows the server sent come first and the new
/// ones behind them, and past those there is none.
pub proof fn new_rows_stand_behind_the_sent_ones(inserted: nat, row: usize, base_rows: usize)
    ensures
        match located(inserted, row, base_rows) {
            Some(RowRef::Base(at)) => at == row && row < base_rows,
            Some(RowRef::Inserted(index)) => base_rows + index == row && index < inserted,
            None => row >= base_rows + inserted,
        },
{
}

/// Marking a row turns its mark over, and touches no other mark, no value and no
/// new row.
pub proof fn a_mark_is_turned_over(staged: Staged, row: usize, other: usize)
    ensures
        ({
            let after = after_toggle(staged, row);
            &&& after.deleted.contains(row) <==> !staged.deleted.contains(row)
            &&& other != row ==> (after.deleted.contains(other) <==> staged.deleted.contains(
                other,
            ))
            &&& after.changed == staged.changed
            &&& after.inserted == staged.inserted
        }),
{
}

/// A new row that is discarded is gone, those behind it move up by one, and nothing
/// staged against the table's own rows is lost. Past the last row there is nothing
/// to discard.
pub proof fn discarding_a_new_row_moves_the_rest_up(staged: Staged, index: int, base_rows: usize)
    requires
        0 <= index,
        base_rows + index <= usize::MAX,
    ensures
        ({
            let row = (base_rows + index) as usize;
            let after = after_discard(staged, row, base_rows);
            &&& index < staged.inserted.len() ==> after.inserted == staged.inserted.take(index)
                + staged.inserted.skip(index + 1) && after.changed == staged.changed
                && after.deleted == staged.deleted && row_staged(staged, row, base_rows)
            &&& index >= staged.inserted.len() ==> after == staged && !row_staged(
                staged,
                row,
                base_rows,
            )
        }),
{
    let row = (base_rows + index) as usize;
    if index < staged.inserted.len() {
        assert(after_discard(staged, row, base_rows).inserted =~= staged.inserted.take(index)
            + staged.inserted.skip(index + 1));
    }
}

/// Discarding a row of the table throws away its mark and the values staged against
/// it, and nothing of any other row.
pub proof fn discarding_a_row_throws_away_all_of_it(
    staged: Staged,
    row: usize,
    base_rows: usize,
    at: (usize, usize),
)
    requires
        row < base_rows,
    ensures
        ({
            let after = after_discard(staged, row, base_rows);
            &&& !after.deleted.contains(row)
            &&& at.0 == row ==> !after.changed.dom().contains(at)
            &&& at.0 != row ==> (after.changed.dom().contains(at)
                <==> staged.changed.dom().contains(at)) && (after.deleted.contains(at.0)
                <==> staged.deleted.contains(at.0)) && (staged.changed.dom().contains(at)
                ==> after.changed[at] == staged.changed[at])
            &&& after.inserted == staged.inserted
        }),
{
}

/// A row is marked for what is staged against it: to be deleted before anything
/// else, changed where some cell of it is, new where it stands behind the rows the
/// server sent.
pub proof fn a_row_is_marked_for_what_is_staged(staged: Staged, row: usize, base_rows: usize)
    ensures
        match status_of(staged, row, base_rows) {
            RowStatus::Deleted => row < base_rows && staged.deleted.contains(row),
            RowStatus::Modified => row < base_rows && !staged.deleted.contains(row) && exists|
                column: usize,
            | #[trigger]
                staged.changed.dom().contains((row, column)),
            RowStatus::Inserted => base_rows <= row < base_rows + staged.inserted.len(),
            RowStatus::Unchanged => {
                ||| row >= base_rows + staged.inserted.len()
                ||| row < base_rows && !staged.deleted.contains(row) && forall|column: usize|
                    !#[trigger] staged.changed.dom().contains((row, column))
            },
        },
        row_staged(staged, row, base_rows) <==> !(status_of(staged, row, base_rows) is Unchanged),
{
}

/// A value is the server's own where both are the same text or both are none.
pub proof fn a_value_is_compared_as_text(value: StagedText, original: Option<Seq<char>>)
    ensures
        staged_matches(value, original) <==> match (value, original) {
            (StagedText::Text(text), Some(sent)) => text == sent,
            (StagedText::Null, None) => true,
            _ => false,
        },
{
}

/// What is counted: the rows with a changed cell that are not to be deleted, the new
/// rows, and the rows to be deleted.
pub proof fn each_staged_row_is_counted_once(staged: Staged, row: usize)
    ensures
        edited_rows(staged).contains(row) <==> !staged.deleted.contains(row) && exists|
            column: usize,
        | #[trigger]
            staged.changed.dom().contains((row, column)),
        counts_of(staged) matches Some(counts) ==> counts.changed == edited_rows(
            staged,
        ).len() as usize && counts.inserted == staged.inserted.len() as usize && counts.deleted
            == staged.deleted.len() as usize,
        counts_of(staged) is None <==> edited_rows(staged).len() == 0 && staged.inserted.len() == 0
            && staged.deleted.len() == 0,
{
}

/// A column takes values unless the server fills it in itself or refuses them, and
/// takes NULL unless the catalogue is certain that it does not. A cell is what the
/// server sent at its place, and NULL where it sent nothing.
pub proof fn a_column_takes_what_the_catalogue_says(
    column: ColumnInfo,
    rows: Seq<Vec<SourceCell>>,
    row: usize,
    at: usize,
)
    ensures
        rules_of(column).writable <==> !(column.read_only || column.auto_increment),
        rules_of(column).nullable <==> column.nullable != 0,
        row < rows.len() && at < rows[row as int]@.len() ==> cell_at(rows, row, at) == match rows[
        row as int]@[at as int] {
            SourceCell::Text(text) => CellText::Text(text@),
            SourceCell::Null => CellText::Null,
            SourceCell::Lob { size } => CellText::Lob(size),
        },
        row >= rows.len() || at >= rows[row as int]@.len() ==> cell_at(rows, row, at)
            == CellText::Null,
        compared(cell_at(rows, row, at)) is Some <==> cell_at(rows, row, at) is Text,
        cell_at(rows, row, at) matches CellText::Text(text) ==> compared(cell_at(rows, row, at))
            == Some(text),
{
}

/// A staged cell reads as what it holds.
pub proof fn a_staged_cell_reads_as_it_is(cell: StagedCell)
    ensures
        match cell {
            StagedCell::Unset => cell@ is Unset,
            StagedCell::Null => cell@ is Null,
            StagedCell::Text(text) => cell@ == StagedText::Text(text@),
        },
{
}

/// The rows may only be read where the profile says so, or where the catalogue has
/// answered that the table has no key; the profile's word comes first.
pub proof fn rows_are_read_only_for_a_reason(pane: DataPane)
    ensures
        reading_only(pane) is Some <==> pane.read_only || (pane.keys_read && pane.keys@.len() == 0),
        pane.read_only ==> reading_only(pane) == Some("data.read_only"),
        !pane.read_only && pane.keys_read && pane.keys@.len() == 0 ==> reading_only(pane) == Some(
            "data.no_primary_key",
        ),
{
}

/// The pane asks for every column of its table, and for an order only where the user
/// did: by that column, and in that direction.
pub proof fn the_pane_asks_for_every_column(table: Seq<char>, column: Seq<char>, order: Order)
    ensures
        select_text(table, column, None) == "SELECT * FROM "@ + table,
        select_text(table, column, Some(order)) == "SELECT * FROM "@ + table + " ORDER BY "@
            + column + " "@ + match order.direction {
            SortDirection::Ascending => "ASC"@,
            SortDirection::Descending => "DESC"@,
        },
{
}

/// The rows shown are those of the first result set, whatever else a statement
/// answered with.
pub proof fn the_first_result_set_is_shown(steps: Seq<Step>)
    ensures
        match first_rows(steps) {
            Some(at) => 0 <= at < steps.len() && steps[at] is Rows && forall|k: int|
                0 <= k < at ==> !((#[trigger] steps[k]) is Rows),
            None => forall|k: int| 0 <= k < steps.len() ==> !((#[trigger] steps[k]) is Rows),
        },
    decreases steps.len(),
{
    if steps.len() > 0 {
        let shorter = steps.drop_last();
        the_first_result_set_is_shown(shorter);
        assert forall|k: int| 0 <= k < shorter.len() implies #[trigger] steps[k] == shorter[k] by {}
    }
}

/// A load shows what it brought: every column with its name and kind, marked where it
/// is part of the key, every row, and nothing staged. There may be more to fetch
/// unless the server said that this was all and keeps no cursor. The rows may be
/// written to where the profile allows it and the table has a key.
pub proof fn a_load_shows_what_it_brought(rows: Rows, opened: Opened, pane: DataPane)
    requires
        shows(rows, opened, pane),
    ensures
        rows.columns == opened.columns,
        rows.cursor == opened.cursor,
        !rows.fetching,
        rows.source.base.rows@ == opened.batch@,
        rows.source.base.columns@.len() == opened.columns@.len(),
        rows.source.columns@.len() == opened.columns@.len(),
        forall|i: int|
            0 <= i < opened.columns@.len() ==> {
                &&& (#[trigger] rows.source.base.columns@[i]).name@ == opened.columns@[i].name@
                &&& rows.source.base.columns@[i].kind == opened.columns@[i].kind
                &&& rows.source.base.columns@[i].primary_key <==> exists|k: int|
                    0 <= k < opened.keys@.len() && (#[trigger] opened.keys@[k])@
                        == opened.columns@[i].name@
            },
        forall|i: int|
            0 <= i < opened.columns@.len() ==> (#[trigger] rows.source.columns@[i]).writable == !(
            opened.columns@[i].read_only || opened.columns@[i].auto_increment),
        forall|i: int|
            0 <= i < opened.columns@.len() ==> (#[trigger] rows.source.columns@[i]).nullable == (
            opened.columns@[i].nullable != 0),
        nothing_staged(rows.source.edits@),
        rows.source.writable <==> !pane.read_only && opened.keys@.len() > 0,
        rows.source.base.state == if opened.complete && !opened.cursor {
            GridSourceState::Complete
        } else {
            GridSourceState::HasMore
        },
        pane.order is None ==> rows.sort is None,
        pane.order matches Some(order) ==> rows.sort == Some((order.column, order.direction)),
{
    assert forall|i: int| 0 <= i < opened.columns@.len() implies (
    #[trigger] rows.source.base.columns@[i]).primary_key == (exists|k: int|
        0 <= k < opened.keys@.len() && (#[trigger] opened.keys@[k])@ == opened.columns@[i].name@) by {
        let name = opened.columns@[i].name@;
        if texts(opened.keys@).contains(name) {
            let k = choose|k: int| 0 <= k < texts(opened.keys@).len() && texts(opened.keys@)[k] == name;
            assert(opened.keys@[k]@ == name);
        }
        if exists|k: int| 0 <= k < opened.keys@.len() && (#[trigger] opened.keys@[k])@ == name {
            let k = choose|k: int|
                0 <= k < opened.keys@.len() && (#[trigger] opened.keys@[k])@ == name;
            assert(texts(opened.keys@)[k] == name);
        }
    }
}

/// A load that is asked for carries the next number and the pane's own number of
/// rows. What was about the old rows goes; what the pane is over, the order and what
/// it may do stay. Without a session nothing is asked for, and the pane says so.
pub proof fn a_refresh_asks_for_the_same_rows(pane: DataPane)
    requires
        pane.generation < u64::MAX,
        !pending(pane.load),
    ensures
        ({
            let after = refreshed(pane).0;
            &&& match refreshed(pane).1 {
                Some(request) => pane.attached && request.generation == pane.generation + 1
                    && request.fetch_rows == pane.fetch_rows && after.generation
                    == pane.generation + 1 && after.load is Running && !after.keys_read
                    && after.notice is None && after.context_menu is None && !after.confirm_discard
                    && after.preview is None && after.apply_error is None,
                None => !pane.attached && after.notice == Some(Notice::Disconnected) && after.load
                    == pane.load && after.generation == pane.generation && after.keys_read
                    == pane.keys_read && after.context_menu == pane.context_menu
                    && after.confirm_discard == pane.confirm_discard && after.preview
                    == pane.preview && after.apply_error == pane.apply_error,
            }
            &&& after.target == pane.target
            &&& after.connection == pane.connection
            &&& after.attached == pane.attached
            &&& after.read_only == pane.read_only
            &&& after.transactional == pane.transactional
            &&& after.restore_auto_commit == pane.restore_auto_commit
            &&& after.fetch_rows == pane.fetch_rows
            &&& after.keys == pane.keys
            &&& after.order == pane.order
            &&& after.applying == pane.applying
        }),
{
}

/// A pane that starts over keeps what it is over and how it asks, under the next
/// number.
pub proof fn starting_over_keeps_the_question(pane: DataPane, notice: Notice)
    requires
        pane.generation < u64::MAX,
    ensures
        ({
            let after = loading_again(pane);
            &&& after.generation == pane.generation + 1
            &&& after.load is Running
            &&& !after.keys_read
            &&& after.notice is None
            &&& !after.confirm_discard
            &&& after.target == pane.target
            &&& after.connection == pane.connection
            &&& after.attached == pane.attached
            &&& after.read_only == pane.read_only
            &&& after.transactional == pane.transactional
            &&& after.restore_auto_commit == pane.restore_auto_commit
            &&& after.fetch_rows == pane.fetch_rows
            &&& after.keys == pane.keys
            &&& after.order == pane.order
            &&& after.applying == pane.applying
            &&& same_but_notice(saying(pane, notice), pane)
            &&& saying(pane, notice).notice == Some(notice)
        }),
{
}

/// Whether two panes agree on everything but what they say.
pub open spec fn same_but_notice(a: DataPane, b: DataPane) -> bool {
    &&& same_but_both(a, b)
    &&& a.load == b.load
}

/// Whether two panes agree on everything but their load and what they say.
pub open spec fn same_but_both(a: DataPane, b: DataPane) -> bool {
    &&& a.target == b.target
    &&& a.connection == b.connection
    &&& a.attached == b.attached
    &&& a.read_only == b.read_only
    &&& a.transactional == b.transactional
    &&& a.restore_auto_commit == b.restore_auto_commit
    &&& a.fetch_rows == b.fetch_rows
    &&& a.keys == b.keys
    &&& a.keys_read == b.keys_read
    &&& a.order == b.order
    &&& a.generation == b.generation
    &&& a.context_menu == b.context_menu
    &&& a.confirm_discard == b.confirm_discard
    &&& a.preview == b.preview
    &&& a.applying == b.applying
    &&& a.apply_error == b.apply_error
}

/// Staging changes nothing but what is staged: the rows, their columns, the cursor
/// and the order are those of before, and where there are no rows nothing changes.
pub proof fn staging_touches_nothing_else(
    before: DataPane,
    after: DataPane,
    staged: Staged,
)
    requires
        same_but_load(after, before),
        restaged(before.load, after.load, staged),
    ensures
        same_but_both(after, before),
        after.notice == before.notice,
        match before.load {
            Load::Ready(rows) => after.load matches Load::Ready(now) && now.source.edits@ == staged
                && now.columns == rows.columns && now.cursor == rows.cursor && now.fetching
                == rows.fetching && now.sort == rows.sort && now.source.base == rows.source.base
                && now.source.columns == rows.source.columns && now.source.writable
                == rows.source.writable,
            _ => after.load == before.load,
        },
        before.load matches Load::Ready(rows) ==> staged_in(before.load) == rows.source.edits@ && (
        pending(before.load) <==> !nothing_staged(rows.source.edits@)),
        !(before.load is Ready) ==> !pending(before.load),
{
}

/// Nothing is staged exactly where no cell is changed, no row marked and none new.
pub proof fn nothing_staged_is_nothing_at_all(staged: Staged)
    ensures
        nothing_staged(staged) <==> {
            &&& forall|at: (usize, usize)| !#[trigger] staged.changed.dom().contains(at)
            &&& forall|row: usize| !#[trigger] staged.deleted.contains(row)
            &&& staged.inserted.len() == 0
        },
{
    if forall|at: (usize, usize)| !#[trigger] staged.changed.dom().contains(at) {
        assert(staged.changed.dom() =~= Set::<(usize, usize)>::empty());
    }
    if forall|row: usize| !#[trigger] staged.deleted.contains(row) {
        assert(staged.deleted =~= Set::<usize>::empty());
    }
}

/// An apply plans something where the rows may be written to, no batch is out,
/// nothing waits for an answer and something is staged. What failed is reported as
/// it came: the driver's error, or that the rows had changed, and in either case
/// whether part of the batch went through.
pub proof fn an_apply_is_planned_and_reported(pane: DataPane, failure: ApplyFailure)
    ensures
        plans(pane) <==> reading_only(pane) is None && !pane.applying && pane.preview is None
            && pending(pane.load),
        problem_of(failure).half_applied == failure.half_applied,
        failure.stop matches ApplyStop::Driver(error) ==> problem_of(failure).error == Some(error)
            && problem_of(failure).message is None,
        failure.stop is Stale ==> problem_of(failure).error is None && problem_of(failure).message
            == Some(ApplyMessage::Stale),
{
}

/// A notice says what it is about: how many statements were applied, or what the
/// driver said.
pub proof fn a_notice_says_what_happened(notice: Notice)
    ensures
        match notice {
            Notice::PageFailed(message) => notice_text(notice) == Err::<LabelText, Seq<char>>(
                message@,
            ),
            Notice::Applied(count) => notice_text(notice) matches Ok(label) && label.key
                == "data.applied" && label.args == seq![
                ("count", CaptionText::Text(decimal(count as nat))),
            ],
            Notice::Applying => notice_text(notice) matches Ok(label) && label.key
                == "data.applying" && label.args.len() == 0,
            Notice::DiscardFirst => notice_text(notice) matches Ok(label) && label.key
                == "data.discard_first" && label.args.len() == 0,
            Notice::Disconnected => notice_text(notice) matches Ok(label) && label.key
                == "explorer.disconnected" && label.args.len() == 0,
        },
{
}

/// A field is opened in a cell, and a NULL put into it, only where the rows and the
/// column take values; a NULL also only where the column may hold one, and in a row
/// the server sent neither over a large object nor once the row is to be deleted.
pub proof fn a_cell_takes_what_its_column_takes(
    source: crate::data_edit::EditableSource,
    hidden: Seq<usize>,
    row: usize,
    column: usize,
)
    requires
        source.base.rows@.len() + source.edits@.inserted.len() <= usize::MAX,
    ensures
        takes_field(source, hidden, column as int) <==> source.writable && column
            < source.columns@.len() && source.columns@[column as int].writable && forall|k: int|
            0 <= k < hidden.len() ==> #[trigger] hidden[k] != column,
        takes_null(source, row, column) <==> {
            &&& source.writable
            &&& column < source.columns@.len()
            &&& source.columns@[column as int].writable
            &&& source.columns@[column as int].nullable
            &&& row < source.base.rows@.len() + source.edits@.inserted.len()
            &&& row < source.base.rows@.len() ==> !source.edits@.deleted.contains(row) && !(
            cell_at(source.base.rows@, row, column) is Lob)
        },
{
    if hidden.contains(column) {
        let k = choose|k: int| 0 <= k < hidden.len() && hidden[k] == column;
        assert(hidden[k] == column);
    }
}

/// The strip offers a refresh always, and the editing buttons only on rows that may
/// be written to. A row can be added unless the rows are on their way; changes can be
/// sent or thrown away where there are some and nothing is under way.
pub proof fn the_strip_offers_what_can_be_done(pane: DataPane)
    ensures
        ({
            let idle = !(pane.load is Running) && !pane.applying;
            let staged = match pane.load {
                Load::Ready(rows) => counts_of(rows.source.edits@) is Some,
                _ => false,
            };
            let buttons = data_buttons(pane);
            &&& buttons.len() == if reading_only(pane) is None {
                4int
            } else {
                1
            }
            &&& buttons.last().id == "data-refresh"
            &&& buttons.last().label == "data.refresh"
            &&& buttons.last().variant == ButtonVariant::Secondary
            &&& buttons.last().enabled == idle
            &&& reading_only(pane) is None ==> {
                &&& buttons[0].id == "data-insert"
                &&& buttons[0].label == "data.insert_row"
                &&& buttons[0].variant == ButtonVariant::Secondary
                &&& buttons[0].enabled == !(pane.load is Running)
                &&& buttons[1].id == "data-apply"
                &&& buttons[1].label == "data.apply"
                &&& buttons[1].variant == ButtonVariant::Primary
                &&& buttons[1].enabled == (staged && idle)
                &&& buttons[2].id == "data-discard"
                &&& buttons[2].label == "data.discard"
                &&& buttons[2].variant == ButtonVariant::Secondary
                &&& buttons[2].enabled == (staged && idle)
            }
        }),
{
}

/// Rows are drawn where there are any, the server's or new ones, and otherwise what
/// stands in for them.
pub proof fn rows_are_drawn_where_there_are_any(load: Load)
    ensures
        match body_of(load) {
            DataBody::Loading => load is Running,
            DataBody::Failed => load is Failed,
            DataBody::Empty => load matches Load::Ready(rows) && rows.source.base.rows@.len() == 0
                && rows.source.edits@.inserted.len() == 0,
            DataBody::Grid => load matches Load::Ready(rows) && (rows.source.base.rows@.len() > 0
                || rows.source.edits@.inserted.len() > 0),
        },
{
}

/// A layer is drawn where there is something for it to show, and once. The strip is
/// at the bottom and the menu above all else.
pub proof fn a_layer_is_drawn_where_it_has_something_to_show(pane: DataPane)
    ensures
        layers_of(pane)[0] == Layer::Toolbar,
        layers_of(pane).contains(Layer::Body),
        layers_of(pane).contains(Layer::Banner) <==> reading_only(pane) is Some,
        layers_of(pane).contains(Layer::Failure) <==> pane.apply_error is Some,
        layers_of(pane).contains(Layer::Notice) <==> pane.notice is Some,
        layers_of(pane).contains(Layer::ConfirmDiscard) <==> pane.confirm_discard && (
        pane.load matches Load::Ready(rows) && counts_of(rows.source.edits@) is Some),
        layers_of(pane).contains(Layer::Preview) <==> pane.preview is Some,
        layers_of(pane).contains(Layer::Menu) <==> pane.context_menu is Some,
        pane.context_menu is Some ==> layers_of(pane).last() == Layer::Menu,
        layers_of(pane).no_duplicates(),
{
    let a = reading_only(pane) is Some;
    let b = pane.apply_error is Some;
    let c = pane.notice is Some;
    let counted = pane.load matches Load::Ready(rows) && counts_of(rows.source.edits@) is Some;
    let d = pane.confirm_discard && counted;
    let e = pane.preview is Some;
    let f = pane.context_menu is Some;
    let all = layers_of(pane);
    let body: int = 1 + one_if(a) + one_if(b);
    let notice: int = body + 1;
    let discard: int = notice + one_if(c);
    let preview: int = discard + one_if(d);
    let menu: int = preview + one_if(e);
    assert(all.len() == menu + one_if(f));
    assert(a ==> all[1] == Layer::Banner);
    assert(b ==> all[1 + one_if(a)] == Layer::Failure);
    assert(all[body] == Layer::Body);
    assert(c ==> all[notice] == Layer::Notice);
    assert(d ==> all[discard] == Layer::ConfirmDiscard);
    assert(e ==> all[preview] == Layer::Preview);
    assert(f ==> all[menu] == Layer::Menu);
    assert forall|i: int| 0 <= i < all.len() implies match #[trigger] all[i] {
        Layer::Toolbar => i == 0,
        Layer::Banner => a && i == 1,
        Layer::Failure => b && i == 1 + one_if(a),
        Layer::Body => i == body,
        Layer::Notice => c && i == notice,
        Layer::ConfirmDiscard => d && i == discard,
        Layer::Preview => e && i == preview,
        Layer::Menu => f && i == menu,
    } by {}
}

/// The menu of a cell offers the copy commands and below them, each behind a line,
/// what may be done to the cell, to the table and to the row. A NULL can be put where
/// the cell takes one; a row can be added where the rows may be written to; one the
/// server sent can be marked, or its mark taken off, and any that something is staged
/// against can be discarded.
pub proof fn the_menu_of_a_cell(source: crate::data_edit::EditableSource, look: GridLook)
    requires
        source.base.rows@.len() + source.edits@.inserted.len() <= usize::MAX,
    ensures
        ({
            let menu = cell_menu(source, look);
            let copies = copy_menu(look.formats@, look.selection_empty, look.modifier@);
            let from = copies.len() as int;
            let base = source.base.rows@.len() as usize;
            let marked = look.cell matches Some((row, _)) && row < base
                && source.edits@.deleted.contains(row);
            &&& menu.len() == from + 7
            &&& menu.take(from) == copies
            &&& menu[from] is Separator
            &&& menu[from + 1] == offered(
                "data.set_null",
                look.cell matches Some((row, column)) && takes_null(source, row, column),
                GridCommand::SetNull,
            )
            &&& menu[from + 2] is Separator
            &&& menu[from + 3] == offered("data.insert_row", source.writable, GridCommand::InsertRow)
            &&& menu[from + 4] == offered(
                if marked {
                    "data.undelete_row"
                } else {
                    "data.delete_row"
                },
                source.writable && (look.cell matches Some((row, _)) && row < base),
                GridCommand::ToggleDelete,
            )
            &&& menu[from + 5] is Separator
            &&& menu[from + 6] == offered(
                "data.discard_row",
                look.cell matches Some((row, _)) && row_staged(source.edits@, row, base),
                GridCommand::DiscardRow,
            )
        }),
{
    let copies = copy_menu(look.formats@, look.selection_empty, look.modifier@);
    assert(cell_menu(source, look).take(copies.len() as int) =~= copies);
    assert(plain("data.set_null").args =~= Seq::empty());
}

/// A command of a menu that carries no mark and has no key of its own.
pub open spec fn offered(key: &'static str, enabled: bool, command: GridCommand) -> MenuText<
    GridCommand,
> {
    MenuText::Command {
        label: LabelText { key, args: Seq::empty() },
        enabled,
        checked: false,
        shortcut: None,
        command,
    }
}

/// One where something holds.
spec fn one_if(there: bool) -> int {
    if there {
        1
    } else {
        0
    }
}

} // verus!
