use rudbman_app::data_edit::{EditCounts, EditSet, EditableSource, RowRef, RowStatus, StagedCell};
use rudbman_app::grid::{
    ColumnInfo, GridCell, GridColumnKind, GridSourceState, ResultSource, SourceCell,
};

fn info(name: &str, kind: GridColumnKind) -> ColumnInfo {
    ColumnInfo {
        name: name.to_string(),
        kind,
        nullable: 2,
        auto_increment: false,
        read_only: false,
    }
}

fn three_columns() -> Vec<ColumnInfo> {
    vec![
        info("ID", GridColumnKind::Number),
        info("NAME", GridColumnKind::Text),
        info("NOTE", GridColumnKind::Text),
    ]
}

fn cell(text: Option<&str>) -> SourceCell {
    match text {
        Some(text) => SourceCell::Text(text.to_string()),
        None => SourceCell::Null,
    }
}

fn text(text: &str) -> StagedCell {
    StagedCell::Text(text.to_string())
}

/// Three text columns, two rows: `("a", NULL, "")` and `("b", "y", "z")`.
fn source(writable: bool) -> EditableSource {
    let columns = three_columns();
    let mut base = ResultSource::new(&columns);
    base.push(vec![
        vec![cell(Some("a")), cell(None), cell(Some(""))],
        vec![cell(Some("b")), cell(Some("y")), cell(Some("z"))],
    ]);
    base.mark_primary_keys(&vec!["ID".to_string()]);
    EditableSource::new(base, &columns, writable)
}

#[test]
fn a_staged_value_hides_the_one_underneath_it() {
    let mut source = source(true);
    source.stage(0, 0, text("A"));

    assert_eq!(source.cell(0, 0), GridCell::Text("A"));
    assert_eq!(source.cell(0, 1), GridCell::Null, "untouched, still NULL");
    assert_eq!(source.cell(1, 0), GridCell::Text("b"), "another row");
    assert!(source.cell_dirty(0, 0));
    assert!(!source.cell_dirty(0, 1));
    assert_eq!(source.row_status(0), RowStatus::Modified);
    assert_eq!(source.row_status(1), RowStatus::Unchanged);
}

#[test]
fn null_and_the_empty_string_are_staged_apart() {
    let mut source = source(true);

    // The NULL cell becomes the empty string, which is a change.
    source.stage(0, 1, text(""));
    assert_eq!(source.cell(0, 1), GridCell::Text(""));
    assert!(source.cell_dirty(0, 1));

    // The empty-string cell becomes NULL, which is also a change.
    source.stage(0, 2, StagedCell::Null);
    assert_eq!(source.cell(0, 2), GridCell::Null);
    assert!(source.cell_dirty(0, 2));

    // And each staged back to what it was is no change at all.
    source.stage(0, 1, StagedCell::Null);
    source.stage(0, 2, text(""));
    assert!(!source.cell_dirty(0, 1));
    assert!(!source.cell_dirty(0, 2));
    assert!(source.edits().is_empty());
}

#[test]
fn an_edit_that_walks_back_un_stages_itself() {
    let mut source = source(true);
    source.stage(1, 1, text("Y"));
    assert_eq!(source.edits().counts().changed, 1);

    source.stage(1, 1, text("y"));
    assert!(source.edits().is_empty(), "the round trip left a change");
    assert_eq!(source.cell(1, 1), GridCell::Text("y"));
    assert_eq!(source.row_status(1), RowStatus::Unchanged);
}

#[test]
fn a_delete_covers_an_edit_on_the_same_row() {
    let mut source = source(true);
    source.stage(0, 0, text("A"));
    source.edits_mut().toggle_deleted(0);

    assert_eq!(source.row_status(0), RowStatus::Deleted, "deletion wins");
    assert_eq!(source.cell(0, 0), GridCell::Text("A"), "still drawn");
    assert!(!source.cell_editable(0, 0), "a row on its way out");
    assert_eq!(
        source.edits().counts(),
        EditCounts { changed: 0, inserted: 0, deleted: 1 }
    );

    // And putting it back gives the edit back with it.
    source.edits_mut().toggle_deleted(0);
    assert_eq!(source.row_status(0), RowStatus::Modified);
    assert!(source.cell_editable(0, 0));
    assert_eq!(source.edits().counts().changed, 1);
}

#[test]
fn an_inserted_rows_cells_are_unset_null_or_typed() {
    let mut source = source(true);
    assert_eq!(source.row_count(), 2);

    let index = source.edits_mut().add_insert(3);
    assert_eq!(index, 0);
    assert_eq!(source.row_count(), 3);
    assert_eq!(source.row_status(2), RowStatus::Inserted);

    source.stage(2, 0, text("c"));
    source.stage(2, 1, StagedCell::Null);
    // Column 2 is left alone.

    assert_eq!(source.cell(2, 0), GridCell::Text("c"));
    assert_eq!(source.cell(2, 1), GridCell::Null);
    assert_eq!(
        source.cell(2, 2),
        GridCell::Default,
        "an untouched column is the server's, not NULL"
    );
    assert!(source.cell_dirty(2, 0));
    assert!(source.cell_dirty(2, 1), "a deliberate NULL is a value");
    assert!(!source.cell_dirty(2, 2), "an untouched column is not typed");
    assert_eq!(
        source.edits().inserted()[0],
        [text("c"), StagedCell::Null, StagedCell::Unset]
    );
}

#[test]
fn a_page_moves_the_inserted_rows_and_nothing_else() {
    let mut source = source(true);
    source.stage(1, 0, text("B"));
    source.edits_mut().add_insert(3);
    source.stage(2, 0, text("new"));

    source
        .base_mut()
        .push(vec![vec![cell(Some("c")), cell(Some("n")), cell(Some("o"))]]);

    assert_eq!(source.row_count(), 4);
    assert_eq!(source.cell(1, 0), GridCell::Text("B"), "the edit held");
    assert_eq!(source.cell(2, 0), GridCell::Text("c"), "the new base row");
    assert_eq!(
        source.cell(3, 0),
        GridCell::Text("new"),
        "the inserted row moved down with the base"
    );
    assert_eq!(source.row_status(3), RowStatus::Inserted);
}

#[test]
fn the_original_is_readable_under_a_staged_key() {
    let mut source = source(true);
    source.stage(0, 0, text("A"));

    assert_eq!(source.cell(0, 0), GridCell::Text("A"));
    assert_eq!(source.original(0, 0), Some(GridCell::Text("a")));
    assert_eq!(source.original(0, 1), Some(GridCell::Null));

    source.edits_mut().add_insert(3);
    assert_eq!(source.original(2, 0), None, "an inserted row has no original");
}

#[test]
fn a_row_can_be_discarded_on_its_own() {
    let mut source = source(true);
    source.stage(0, 0, text("A"));
    source.stage(1, 0, text("B"));
    source.edits_mut().toggle_deleted(0);
    source.edits_mut().add_insert(3);
    source.stage(2, 0, text("new"));

    let base = source.base_rows();
    assert!(source.edits_mut().discard_row(0, base));
    assert_eq!(source.row_status(0), RowStatus::Unchanged);
    assert_eq!(source.cell(0, 0), GridCell::Text("a"));
    assert_eq!(source.cell(1, 0), GridCell::Text("B"), "row 1 kept its own");

    assert!(source.edits_mut().discard_row(2, base));
    assert_eq!(source.row_count(), 2, "the inserted row went with it");
    assert!(!source.edits().is_empty(), "row 1 is still staged");

    source.edits_mut().discard_all();
    assert!(source.edits().is_empty());
    assert_eq!(source.cell(1, 0), GridCell::Text("b"));
}

#[test]
fn the_counts_are_rows_and_not_cells() {
    let mut source = source(true);
    source.stage(0, 0, text("A"));
    source.stage(0, 1, text("N"));
    source.stage(0, 2, StagedCell::Null);
    source.edits_mut().toggle_deleted(1);
    source.edits_mut().add_insert(3);
    source.edits_mut().add_insert(3);

    assert_eq!(
        source.edits().counts(),
        EditCounts { changed: 1, inserted: 2, deleted: 1 },
        "three cells of one row are one UPDATE"
    );
    assert!(!source.edits().is_empty());
}

#[test]
fn the_two_standing_refusals_are_answered_per_cell() {
    let read_only = source(false);
    assert!(!read_only.cell_editable(0, 0));
    assert!(!read_only.writable());

    let mut columns = three_columns();
    columns[0].auto_increment = true;
    columns[2].read_only = true;
    columns[1].nullable = 0;
    let source = EditableSource::new(ResultSource::new(&columns), &columns, true);

    assert!(!source.cell_editable(0, 0), "an auto-increment key");
    assert!(!source.cell_editable(0, 2), "a read-only column");
    assert!(!source.nullable(1), "the catalogue forbids NULL");
    assert!(source.nullable(0), "unknown nullability is taken as yes");
}

#[test]
fn an_auto_increment_column_is_not_typed_into_on_a_new_row() {
    let mut columns =
        vec![info("ID", GridColumnKind::Number), info("NAME", GridColumnKind::Text)];
    columns[0].auto_increment = true;
    let mut source = EditableSource::new(ResultSource::new(&columns), &columns, true);
    source.edits_mut().add_insert(2);

    assert!(!source.cell_editable(0, 0));
    assert!(source.cell_editable(0, 1));
    assert_eq!(source.cell(0, 0), GridCell::Default);
}

#[test]
fn the_columns_pass_through_untouched() {
    let source = source(true);
    assert_eq!(source.column_count(), 3);
    assert_eq!(source.column(0).name, "ID");
    assert!(source.column(0).primary_key);
    assert!(!source.column(1).primary_key);
    assert_eq!(source.column(0).kind, GridColumnKind::Number);
    assert_eq!(source.state(), GridSourceState::Complete);
}

#[test]
fn a_row_that_is_no_longer_there_answers_quietly() {
    let mut source = source(true);
    assert_eq!(source.cell(9, 0), GridCell::Null);
    assert_eq!(source.row_status(9), RowStatus::Unchanged);
    assert!(!source.cell_dirty(9, 0));
    assert!(!source.cell_editable(9, 0));

    // And staging into one records nothing at all.
    source.stage(9, 0, text("x"));
    assert!(source.edits().is_empty());
    assert!(!source.edits_mut().discard_row(9, 2));
}

#[test]
fn a_large_object_is_not_typed_into() {
    let columns = three_columns();
    let mut base = ResultSource::new(&columns);
    base.push(vec![vec![
        cell(Some("a")),
        SourceCell::Lob { size: Some(10) },
        cell(None),
    ]]);
    let mut source = EditableSource::new(base, &columns, true);
    assert!(source.cell_editable(0, 0));
    assert!(!source.cell_editable(0, 1));
    assert_eq!(source.cell(0, 1), GridCell::Lob { size: Some(10) });
    source.set_state(GridSourceState::HasMore);
    assert_eq!(source.state(), GridSourceState::HasMore);
}

#[test]
fn the_two_spaces_of_rows_are_told_apart() {
    let mut edits = EditSet::new();
    edits.add_insert(1);
    edits.add_insert(1);
    assert_eq!(edits.locate(0, 2), Some(RowRef::Base(0)));
    assert_eq!(edits.locate(1, 2), Some(RowRef::Base(1)));
    assert_eq!(edits.locate(2, 2), Some(RowRef::Inserted(0)));
    assert_eq!(edits.locate(3, 2), Some(RowRef::Inserted(1)));
    assert_eq!(edits.locate(4, 2), None);
    assert_eq!(edits.row_count(2), 4);
    assert!(edits.toggle_deleted(1));
    assert!(edits.is_deleted(1));
    assert!(!edits.toggle_deleted(1));
    assert_eq!(edits.status(3, 2), RowStatus::Inserted);
    assert_eq!(edits.inserted_cell(1, 0), Some(&StagedCell::Unset));
    assert_eq!(edits.inserted_cell(1, 5), None);
}
