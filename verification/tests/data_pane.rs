use rudbman_app::context_menu::{CopyFormat, GridCommand, MenuRow, SortDirection};
use rudbman_app::data_edit::{EditableSource, RowStatus, StagedCell};
use rudbman_app::data_pane::{
    menu_cell, opened_from, ApplyFailure, ApplyMessage, ApplyStop, DataBody, DataPane, GridLook,
    Layer, Load, MenuTarget, Notice, ObjectTarget, Opened, Order, Step,
};
use rudbman_app::erd_pane::ConnectionId;
use rudbman_app::grid::{ColumnInfo, GridCell, GridColumnKind, GridSourceState, SourceCell};
use rudbman_app::view::Caption;

fn column_info(name: &str) -> ColumnInfo {
    ColumnInfo {
        name: name.to_string(),
        kind: GridColumnKind::Text,
        nullable: 1,
        auto_increment: false,
        read_only: false,
    }
}

fn columns(names: &[&str]) -> Vec<ColumnInfo> {
    names.iter().map(|name| column_info(name)).collect()
}

fn row(cells: &[Option<&str>]) -> Vec<SourceCell> {
    cells
        .iter()
        .map(|cell| match cell {
            Some(text) => SourceCell::Text(text.to_string()),
            None => SourceCell::Null,
        })
        .collect()
}

fn target(name: &str) -> ObjectTarget {
    ObjectTarget {
        connection: ConnectionId(1),
        catalog: None,
        schema: Some("APP".to_string()),
        name: name.to_string(),
    }
}

fn opened(keys: &[&str], columns: Vec<ColumnInfo>, batch: Vec<Vec<SourceCell>>) -> Opened {
    Opened {
        keys: keys.iter().map(|key| key.to_string()).collect(),
        columns,
        batch,
        complete: true,
        cursor: false,
    }
}

/// A pane that has loaded what `opened` holds.
fn pane(name: &str, read_only: bool, opened: Opened) -> DataPane {
    let mut pane = DataPane::new(ConnectionId(1), target(name), read_only, true, 500);
    let request = pane.refresh().expect("the pane is attached");
    pane.deliver(request.generation, Ok(opened));
    pane
}

/// A table with two rows to type into, one NULL and one empty string among them.
fn person_rows() -> Opened {
    opened(
        &["ID"],
        columns(&["ID", "NAME", "NOTE"]),
        vec![
            row(&[Some("1"), Some("a"), None]),
            row(&[Some("2"), Some("b"), Some("")]),
        ],
    )
}

fn person() -> DataPane {
    pane("PERSON", false, person_rows())
}

fn source(pane: &DataPane) -> &EditableSource {
    match &pane.load {
        Load::Ready(rows) => &rows.source,
        other => panic!("the pane holds no rows: {other:?}"),
    }
}

/// Column `column` of the grid, as text.
fn column(pane: &DataPane, column: usize) -> Vec<String> {
    let source = source(pane);
    (0..source.row_count())
        .map(|row| match source.cell(row, column) {
            GridCell::Text(text) => text.to_string(),
            GridCell::Null => "NULL".to_string(),
            GridCell::Default => "DEFAULT".to_string(),
            GridCell::Lob { size } => format!("lob {size:?}"),
        })
        .collect()
}

fn status(pane: &DataPane, row: usize) -> RowStatus {
    source(pane).row_status(row)
}

/// Opens the field over a cell, puts `text` in it and closes it. Answers whether
/// the field opened at all.
fn type_into(pane: &mut DataPane, row: usize, column: usize, text: &str) -> bool {
    if !source(pane).cell_editable(row, column) {
        return false;
    }
    pane.stage(row, column, StagedCell::Text(text.to_string()));
    true
}

fn look(cell: Option<(usize, usize)>) -> GridLook {
    GridLook {
        selection_empty: cell.is_none(),
        cell,
        hidden: 0,
        formats: vec![
            CopyFormat { name: "TSV".to_string(), default: true },
            CopyFormat { name: "CSV".to_string(), default: false },
        ],
        modifier: "Ctrl".to_string(),
    }
}

/// The pane's cell menu: the key of each command, and whether it can be run.
fn cell_menu(pane: &DataPane, cell: Option<(usize, usize)>) -> Vec<(&'static str, bool)> {
    pane.grid_rows(MenuTarget::Cell, &look(cell))
        .iter()
        .filter_map(|row| match row {
            MenuRow::Separator => None,
            MenuRow::Command { label, enabled, .. } => Some((label.key, *enabled)),
        })
        .collect()
}

fn offered(pane: &DataPane, cell: (usize, usize), key: &str) -> bool {
    cell_menu(pane, Some(cell)).contains(&(key, true))
}

#[test]
fn the_statement_names_the_table_the_way_the_dialect_spells_it() {
    let mut pane = pane("ORDER", false, opened(&["ID"], columns(&["ID"]), Vec::new()));
    assert_eq!(pane.table_parts(), vec!["APP".to_string(), "ORDER".to_string()]);
    assert_eq!(pane.select_sql("APP.\"ORDER\"", ""), "SELECT * FROM APP.\"ORDER\"");
    pane.order = Some(Order {
        column: 0,
        name: "ID".to_string(),
        direction: SortDirection::Descending,
    });
    assert_eq!(
        pane.select_sql("APP.\"ORDER\"", "ID"),
        "SELECT * FROM APP.\"ORDER\" ORDER BY ID DESC"
    );
}

#[test]
fn opening_a_table_shows_its_rows() {
    let pane = pane(
        "PERSON",
        false,
        opened(
            &["ID"],
            columns(&["ID", "NAME"]),
            vec![
                row(&[Some("1"), Some("a")]),
                row(&[Some("2"), Some("b")]),
                row(&[Some("3"), Some("c")]),
            ],
        ),
    );

    assert_eq!(column(&pane, 0), ["1", "2", "3"]);
    assert_eq!(column(&pane, 1), ["a", "b", "c"]);
    assert_eq!(pane.keys, ["ID"], "the key was read before the rows");
    assert!(pane.read_only_reason().is_none(), "a keyed table is edit-able");
    assert!(source(&pane).column(0).primary_key, "the key column is unmarked");
    assert!(!source(&pane).column(1).primary_key);
    assert_eq!(source(&pane).state(), GridSourceState::Complete);
    assert_eq!(pane.body(), DataBody::Grid);
    assert!(pane.focus_goes_to_the_rows());
}

#[test]
fn a_table_without_a_primary_key_says_it_can_only_be_read() {
    let pane = pane(
        "LOG",
        false,
        opened(&[], columns(&["LINE"]), vec![row(&[Some("one")]), row(&[Some("two")])]),
    );
    assert_eq!(column(&pane, 0), ["one", "two"]);
    assert!(pane.keys.is_empty());
    assert_eq!(pane.read_only_reason(), Some("data.no_primary_key"));
    assert!(pane.layers().contains(&Layer::Banner));
}

#[test]
fn a_read_only_profile_says_so_over_a_keyed_table() {
    let pane = pane("PERSON", true, opened(&["ID"], columns(&["ID"]), Vec::new()));
    assert_eq!(pane.keys, ["ID"]);
    assert_eq!(pane.read_only_reason(), Some("data.read_only"));
}

#[test]
fn rows_are_paged_and_a_sort_is_a_re_run() {
    let batch = |first: usize, last: usize| -> Vec<Vec<SourceCell>> {
        (first..=last).map(|n| row(&[Some(n.to_string().as_str())])).collect()
    };
    let mut pane = DataPane::new(ConnectionId(1), target("BIG"), false, true, 1_000);
    let request = pane.refresh().expect("the pane is attached");
    assert_eq!(request.fetch_rows, 1_000);
    pane.deliver(
        request.generation,
        Ok(Opened {
            keys: vec!["ID".to_string()],
            columns: columns(&["ID"]),
            batch: batch(1, 1_000),
            complete: false,
            cursor: true,
        }),
    );
    assert_eq!(pane.row_count(), Some(1_000), "one batch, not the whole table");
    assert_eq!(source(&pane).state(), GridSourceState::HasMore);

    let request = pane.fetch_more().expect("there is more");
    assert!(pane.fetch_more().is_none(), "one fetch at a time");
    pane.paged(request.generation, Ok((batch(1_001, 2_000), false)));
    let request = pane.fetch_more().expect("there is more");
    pane.paged(request.generation, Ok((batch(2_001, 2_500), true)));
    assert_eq!(source(&pane).state(), GridSourceState::Complete);
    assert_eq!(column(&pane, 0).len(), 2_500);
    assert!(pane.fetch_more().is_none(), "the cursor is spent");

    // Descending is a fresh statement, so the whole result comes back, and the
    // marker comes back with it.
    let request = pane
        .reorder(0, Some(SortDirection::Descending))
        .expect("nothing is staged");
    let order = pane.order.as_ref().expect("the order is taken");
    assert_eq!((order.name.as_str(), order.direction), ("ID", SortDirection::Descending));
    pane.deliver(
        request.generation,
        Ok(opened(&["ID"], columns(&["ID"]), vec![row(&[Some("2500")])])),
    );
    match &pane.load {
        Load::Ready(rows) => assert_eq!(
            rows.sort,
            Some((0, SortDirection::Descending)),
            "the new grid does not wear the order it is in"
        ),
        other => panic!("{other:?}"),
    }
    assert_eq!(column(&pane, 0)[0], "2500");
}

#[test]
fn a_detached_pane_keeps_its_rows_and_asks_for_nothing_more() {
    let mut pane = pane(
        "PERSON",
        false,
        opened(&["ID"], columns(&["ID"]), vec![row(&[Some("1")]), row(&[Some("2")])]),
    );
    assert_eq!(column(&pane, 0), ["1", "2"]);

    pane.detach();
    assert!(!pane.is_attached());

    assert!(pane.fetch_more().is_none());
    assert_eq!(pane.notice, Some(Notice::Disconnected));
    pane.notice = None;
    assert!(pane.reorder(0, Some(SortDirection::Ascending)).is_none());
    assert_eq!(pane.notice, Some(Notice::Disconnected));
    pane.notice = None;
    assert!(pane.refresh().is_none());
    assert_eq!(pane.notice, Some(Notice::Disconnected));

    // The rows the live load produced are still there to read.
    assert_eq!(column(&pane, 0), ["1", "2"]);
}

#[test]
fn a_committed_field_is_staged_and_marks_its_row() {
    let mut pane = person();
    assert!(type_into(&mut pane, 0, 1, "A"), "the field refused");
    assert_eq!(column(&pane, 1), ["A", "b"], "the overlay is on top");
    assert_eq!(status(&pane, 0), RowStatus::Modified);
    assert_eq!(status(&pane, 1), RowStatus::Unchanged);
    assert!(pane.has_pending_edits());
    let counts = pane.counts().expect("something is staged");
    assert_eq!(counts.changed, 1);
    assert_eq!(counts.inserted, 0);
    assert_eq!(counts.deleted, 0);
    assert_eq!(pane.row_count(), Some(2), "the toolbar counts the table's rows");

    // A to B to A.
    assert!(type_into(&mut pane, 0, 1, "a"));
    assert!(!pane.has_pending_edits(), "the round trip left a change");
    assert!(pane.counts().is_none());
    assert_eq!(status(&pane, 0), RowStatus::Unchanged);
}

#[test]
fn setting_null_is_a_command_and_a_null_cell_is_left_alone() {
    let mut pane = person();
    // Row 0's NOTE is NULL, row 1's is the empty string. Neither is the other,
    // here or anywhere else.
    assert_eq!(column(&pane, 2), ["NULL", ""]);

    assert!(offered(&pane, (0, 2), "data.set_null"));
    pane.set_null(0, 2);
    assert!(!pane.has_pending_edits(), "NULL over NULL was staged as a change");

    // The empty string is a value, so clearing it is a change.
    assert!(offered(&pane, (1, 2), "data.set_null"));
    pane.set_null(1, 2);
    assert!(pane.has_pending_edits());
    assert_eq!(column(&pane, 2), ["NULL", "NULL"]);
    assert_eq!(status(&pane, 1), RowStatus::Modified);
}

#[test]
fn a_deleted_row_stays_on_screen_and_can_be_put_back() {
    let mut pane = person();
    assert!(offered(&pane, (0, 0), "data.delete_row"));
    pane.toggle_delete(0);

    assert_eq!(status(&pane, 0), RowStatus::Deleted);
    assert_eq!(column(&pane, 0), ["1", "2"], "still in its place");
    assert!(!type_into(&mut pane, 0, 1, "A"), "a row on its way out took an edit");

    // The label is the command, so it now says the opposite.
    let rows = cell_menu(&pane, Some((0, 0)));
    assert!(!rows.iter().any(|(key, _)| *key == "data.delete_row"));
    assert!(rows.contains(&("data.undelete_row", true)));
    pane.toggle_delete(0);
    assert!(!pane.has_pending_edits());
    assert_eq!(status(&pane, 0), RowStatus::Unchanged);
}

#[test]
fn an_inserted_row_appears_at_the_end_and_opens_a_field() {
    let mut pane = person();
    let field = pane.insert_row(&Vec::new());
    assert_eq!(source(&pane).row_count(), 3, "the row is not there");
    assert_eq!(
        field,
        Some((2, Some(0))),
        "the field did not open on the new row's first column"
    );

    assert_eq!(status(&pane, 2), RowStatus::Inserted);
    // Every column of it is the server's until something is typed in, and that is
    // not the same thing as NULL.
    assert_eq!(column(&pane, 0), ["1", "2", "DEFAULT"]);
    assert_eq!(column(&pane, 2), ["NULL", "", "DEFAULT"]);

    assert!(type_into(&mut pane, 2, 1, "c"));
    assert_eq!(column(&pane, 1), ["a", "b", "c"]);
    assert_eq!(
        column(&pane, 0),
        ["1", "2", "DEFAULT"],
        "an untyped column is still the server's"
    );
    let counts = pane.counts().expect("something is staged");
    assert_eq!(counts.inserted, 1);
    assert_eq!(counts.changed, 0, "a new row is not a changed one");
    assert_eq!(
        pane.row_count(),
        Some(2),
        "a row nobody has sent yet is not a row of the table"
    );

    // Discarding an inserted row takes the row itself: it *is* the change.
    assert!(
        !offered(&pane, (2, 0), "data.delete_row"),
        "a row the server has never seen was offered a DELETE"
    );
    assert!(offered(&pane, (2, 0), "data.discard_row"));
    pane.discard_row(2);
    assert!(!pane.has_pending_edits());
    assert_eq!(column(&pane, 1), ["a", "b"]);
}

#[test]
fn the_first_row_of_an_empty_table_can_be_added() {
    let mut pane =
        pane("PERSON", false, opened(&["ID"], columns(&["ID", "NAME"]), Vec::new()));
    assert_eq!(pane.row_count(), Some(0));
    assert!(pane.read_only_reason().is_none());
    assert_eq!(pane.body(), DataBody::Empty);

    assert_eq!(pane.insert_row(&vec![0]), Some((0, Some(1))), "past a hidden column");
    assert_eq!(pane.body(), DataBody::Grid);
    assert_eq!(status(&pane, 0), RowStatus::Inserted);
    assert!(type_into(&mut pane, 0, 1, "first"));
    assert_eq!(column(&pane, 1), ["first"]);
    assert_eq!(pane.counts().expect("staged").inserted, 1);
    assert_eq!(pane.row_count(), Some(0), "the server still has none");
}

#[test]
fn a_sort_and_a_refresh_wait_for_the_edits_to_be_dealt_with() {
    let mut pane = person();
    assert!(type_into(&mut pane, 0, 1, "A"));

    assert!(pane.reorder(0, Some(SortDirection::Descending)).is_none());
    assert_eq!(pane.notice, Some(Notice::DiscardFirst));
    assert!(pane.order.is_none(), "the ordering was taken anyway");

    pane.notice = None;
    assert!(pane.refresh().is_none());
    assert_eq!(pane.notice, Some(Notice::DiscardFirst));
    assert!(matches!(pane.load, Load::Ready(_)), "the rows were thrown away anyway");
    assert_eq!(column(&pane, 1), ["A", "b"], "the edit survived");

    // Discarding everything puts the rows back as the server has them and lets
    // the guarded paths through.
    pane.discard_all();
    assert_eq!(column(&pane, 1), ["a", "b"]);
    assert!(!pane.has_pending_edits());
    let request = pane
        .reorder(0, Some(SortDirection::Descending))
        .expect("nothing is staged any more");
    pane.deliver(
        request.generation,
        Ok(opened(
            &["ID"],
            columns(&["ID", "NAME", "NOTE"]),
            vec![
                row(&[Some("2"), Some("b"), Some("")]),
                row(&[Some("1"), Some("a"), None]),
            ],
        )),
    );
    assert_eq!(column(&pane, 0), ["2", "1"], "the sort ran");
}

#[test]
fn a_pane_that_may_not_be_written_to_opens_no_field() {
    for (name, read_only, loaded) in [
        ("LOG", false, opened(&[], columns(&["LINE", "NOTE"]), Vec::new())),
        ("PERSON", true, opened(&["ID"], columns(&["ID", "NAME"]), Vec::new())),
    ] {
        let mut pane = pane(name, read_only, loaded);
        assert!(pane.read_only_reason().is_some(), "{name} is writable");
        assert!(!type_into(&mut pane, 0, 0, "x"), "{name} opened a field");
        assert_eq!(pane.insert_row(&Vec::new()), None);
        pane.toggle_delete(0);
        assert!(!pane.has_pending_edits());

        let rows = cell_menu(&pane, Some((0, 0)));
        for key in ["data.set_null", "data.insert_row", "data.delete_row", "data.discard_row"] {
            assert!(rows.contains(&(key, false)), "{name} offered {key}");
        }
        let buttons: Vec<&str> = pane.toolbar().buttons.iter().map(|button| button.id).collect();
        assert_eq!(buttons, ["data-refresh"]);
    }
}

#[test]
fn a_tab_holding_changes_refuses_to_close() {
    let mut pane = person();
    assert!(type_into(&mut pane, 0, 1, "A"));
    assert!(pane.has_pending_edits());
    pane.warn_pending();
    assert_eq!(pane.notice, Some(Notice::DiscardFirst));

    pane.discard_all();
    assert!(!pane.has_pending_edits());
    assert!(pane.notice.is_none(), "the refusal outlived the reason");
}

#[test]
fn a_mixed_edit_set_is_applied_and_the_rows_are_read_back() {
    let keyed = || {
        let mut columns = columns(&["ID", "NAME"]);
        columns[0].auto_increment = true;
        columns
    };
    let mut pane = pane(
        "PERSON",
        false,
        opened(
            &["ID"],
            keyed(),
            vec![
                row(&[Some("1"), Some("a")]),
                row(&[Some("2"), Some("b")]),
                row(&[Some("3"), Some("c")]),
            ],
        ),
    );
    assert_eq!(column(&pane, 1), ["a", "b", "c"]);

    // A cell, a deletion and a new row. The key column is auto-increment, so it
    // takes no field.
    assert!(type_into(&mut pane, 0, 1, "A"));
    pane.toggle_delete(1);
    assert_eq!(pane.insert_row(&Vec::new()), Some((3, Some(1))));
    assert!(!type_into(&mut pane, 3, 0, "4"));
    assert!(type_into(&mut pane, 3, 1, "d"));

    // Apply plans and shows; nothing has gone out yet.
    assert!(pane.may_plan());
    let statements = vec![
        "DELETE FROM APP.PERSON WHERE ID = ?".to_string(),
        "UPDATE APP.PERSON SET NAME = ? WHERE ID = ?".to_string(),
        "INSERT INTO APP.PERSON (NAME) VALUES (?)".to_string(),
    ];
    pane.apply(Ok(statements.clone()));
    assert_eq!(pane.preview.as_ref(), Some(&statements));

    let request = pane.confirm_apply().expect("the pane is attached");
    assert_eq!(request.statements, statements);
    assert!(request.transactional && request.restore_auto_commit);
    assert!(pane.applying);
    assert_eq!(pane.notice, Some(Notice::Applying));

    let load = pane.applied(request.generation, Ok(3)).expect("the rows are read back");
    assert!(!pane.has_pending_edits(), "the buffer outlived the apply");
    assert!(pane.apply_error.is_none());
    assert!(pane.preview.is_none());
    assert_eq!(pane.notice, Some(Notice::Applied(3)));
    pane.deliver(
        load.generation,
        Ok(opened(
            &["ID"],
            keyed(),
            vec![
                row(&[Some("1"), Some("A")]),
                row(&[Some("3"), Some("c")]),
                row(&[Some("4"), Some("d")]),
            ],
        )),
    );
    assert_eq!(column(&pane, 0), ["1", "3", "4"]);
    assert_eq!(column(&pane, 1), ["A", "c", "d"]);
}

#[test]
fn the_confirmation_can_be_turned_down() {
    let mut pane = person();
    assert!(type_into(&mut pane, 0, 1, "A"));
    pane.apply(Ok(vec!["UPDATE".to_string()]));
    assert_eq!(pane.preview.as_ref().map(Vec::len), Some(1));
    assert!(pane.layers().contains(&Layer::Preview));
    pane.cancel_preview();

    assert!(pane.confirm_apply().is_none());
    assert!(pane.has_pending_edits(), "the edit was thrown away");
    assert_eq!(column(&pane, 1), ["A", "b"], "the overlay still holds");
}

#[test]
fn a_row_that_moved_underneath_stops_the_apply() {
    let mut pane = person();
    assert!(type_into(&mut pane, 0, 1, "A"));
    assert!(type_into(&mut pane, 1, 1, "B"));
    pane.apply(Ok(vec!["UPDATE".to_string(), "UPDATE".to_string()]));
    let request = pane.confirm_apply().expect("the pane is attached");
    let failure = ApplyFailure { stop: ApplyStop::Stale, half_applied: false };
    assert!(pane.applied(request.generation, Err(failure)).is_none());

    let problem = pane.apply_error.as_ref().expect("the apply failed");
    assert_eq!(problem.message, Some(ApplyMessage::Stale));
    assert!(problem.error.is_none(), "no driver refused anything");
    assert!(!problem.half_applied, "the rollback went through");
    assert!(pane.has_pending_edits(), "the staging was thrown away");
    assert_eq!(column(&pane, 1), ["A", "B"], "the edits are still here");
}

#[test]
fn a_driver_refusal_rolls_the_whole_batch_back() {
    let mut pane = person();
    assert!(type_into(&mut pane, 0, 1, "A"));
    pane.set_null(1, 1);
    pane.apply(Ok(vec!["UPDATE".to_string(), "UPDATE".to_string()]));
    assert_eq!(pane.preview.as_ref().map(Vec::len), Some(2));
    let request = pane.confirm_apply().expect("the pane is attached");
    let failure = ApplyFailure {
        stop: ApplyStop::Driver("NULL not allowed".to_string()),
        half_applied: false,
    };
    assert!(pane.applied(request.generation, Err(failure)).is_none());

    let problem = pane.apply_error.as_ref().expect("the apply failed");
    assert_eq!(problem.error.as_deref(), Some("NULL not allowed"));
    assert!(problem.message.is_none(), "this is not the staleness");
    assert!(!problem.half_applied);
    assert!(pane.has_pending_edits());
    assert!(!pane.applying);
    assert!(pane.layers().contains(&Layer::Failure));
}

#[test]
fn a_value_the_column_cannot_take_never_reaches_a_statement() {
    let mut pane = pane(
        "PERSON",
        false,
        opened(&["ID"], columns(&["ID", "AGE"]), vec![row(&[Some("1"), Some("30")])]),
    );
    assert!(type_into(&mut pane, 0, 1, "thirty"));
    pane.apply(Err("AGE cannot take thirty".to_string()));
    assert!(pane.preview.is_none(), "an unbindable value was planned");
    let problem = pane.apply_error.as_ref().expect("the plan failed");
    assert_eq!(
        problem.message,
        Some(ApplyMessage::Plan("AGE cannot take thirty".to_string()))
    );
    assert!(pane.has_pending_edits());
}

#[test]
fn a_read_only_pane_refuses_to_apply() {
    let mut pane = pane("PERSON", true, person_rows());
    assert_eq!(pane.read_only_reason(), Some("data.read_only"));
    // Past the grid, which would refuse: what is under test is the check `apply`
    // makes for itself.
    match &mut pane.load {
        Load::Ready(rows) => {
            rows.source.edits_mut().toggle_deleted(0);
        }
        other => panic!("{other:?}"),
    }
    assert!(pane.has_pending_edits());
    assert!(!pane.may_plan());

    pane.apply(Ok(vec!["DELETE".to_string()]));
    assert!(pane.preview.is_none(), "a read-only pane planned a batch");
    assert!(pane.apply_error.is_none());

    // And so does the second half, in case the first were ever reached with a
    // plan already in hand.
    pane.preview = Some(Vec::new());
    assert!(pane.confirm_apply().is_none());
    assert!(!pane.applying);
}

#[test]
fn a_product_without_transactions_warns_in_the_confirmation() {
    let mut pane = person();
    assert!(pane.transactional, "a product is taken to have transactions");
    pane = pane.with_transactions(false);
    assert!(type_into(&mut pane, 0, 1, "A"));
    pane.apply(Ok(vec!["UPDATE".to_string()]));
    assert!(pane.preview.is_some());
    assert!(!pane.transactional);
    assert!(!pane.confirm_apply().expect("the pane is attached").transactional);
}

#[test]
fn an_answer_that_was_replaced_is_ignored() {
    let mut pane = person();
    let first = pane.refresh().expect("the pane is attached");
    let second = pane.refresh().expect("the pane is attached");
    assert_ne!(first.generation, second.generation);
    pane.deliver(first.generation, Err("late".to_string()));
    assert_eq!(pane.body(), DataBody::Loading);
    pane.deliver(second.generation, Err("no such table".to_string()));
    assert_eq!(pane.body(), DataBody::Failed);
}

#[test]
fn a_page_that_fails_is_said_and_the_rows_stay() {
    let mut pane = DataPane::new(ConnectionId(1), target("BIG"), false, true, 10);
    let request = pane.refresh().expect("the pane is attached");
    pane.deliver(
        request.generation,
        Ok(Opened {
            keys: vec!["ID".to_string()],
            columns: columns(&["ID"]),
            batch: vec![row(&[Some("1")])],
            complete: false,
            cursor: true,
        }),
    );
    let request = pane.fetch_more().expect("there is more");
    pane.paged(request.generation, Err("broken pipe".to_string()));
    assert_eq!(pane.notice, Some(Notice::PageFailed("broken pipe".to_string())));
    assert_eq!(column(&pane, 0), ["1"]);
}

#[test]
fn the_first_result_set_is_the_one_that_is_shown() {
    let rows = |text: &str, complete: bool| Step::Rows {
        columns: columns(&["C"]),
        batch: vec![row(&[Some(text)])],
        complete,
    };
    let opened = opened_from(
        vec!["ID".to_string()],
        vec![Step::Message, rows("first", false), rows("second", true)],
        true,
    );
    assert_eq!(opened.batch, vec![row(&[Some("first")])]);
    assert!(opened.cursor && !opened.complete);
    let none = opened_from(Vec::new(), vec![Step::Message], true);
    assert!(none.columns.is_empty() && none.complete && !none.cursor);
}

#[test]
fn discarding_is_asked_about_and_a_menu_is_put_away() {
    let mut pane = person();
    assert!(type_into(&mut pane, 0, 1, "A"));
    pane.ask_discard();
    assert!(pane.layers().contains(&Layer::ConfirmDiscard));
    pane.keep_edits();
    assert!(!pane.layers().contains(&Layer::ConfirmDiscard));
    assert!(pane.has_pending_edits());

    assert!(!pane.close_context_menu());
    pane.open_context_menu(MenuTarget::Header { column: 0 });
    assert_eq!(pane.layers().last(), Some(&Layer::Menu));
    assert!(pane.close_context_menu());
}

#[test]
fn the_heading_menu_sorts_and_hides() {
    let pane = person();
    let rows = pane.grid_rows(MenuTarget::Header { column: 1 }, &look(None));
    let commands: Vec<GridCommand> = rows
        .iter()
        .filter_map(|row| match row {
            MenuRow::Separator => None,
            MenuRow::Command { command, .. } => Some(*command),
        })
        .collect();
    assert!(commands.contains(&GridCommand::Order(Some(SortDirection::Ascending))));
    assert!(commands.contains(&GridCommand::Order(None)));
    assert!(commands.contains(&GridCommand::HideColumn));
    assert!(commands.contains(&GridCommand::CopyColumnName));
}

#[test]
fn the_menu_acts_on_the_column_under_the_caret() {
    assert_eq!(menu_cell(Some((3, 1)), &vec![0, 2]), Some((3, 2)));
    assert_eq!(menu_cell(Some((3, 5)), &vec![0, 2]), None);
    assert_eq!(menu_cell(None, &vec![0, 2]), None);
}

#[test]
fn a_notice_reads_as_a_sentence_or_as_the_drivers_words() {
    match Notice::Applied(3).text() {
        Ok(label) => {
            assert_eq!(label.key, "data.applied");
            assert_eq!(label.args, vec![("count", Caption::Text("3".to_string()))]);
        }
        Err(words) => panic!("{words}"),
    }
    assert_eq!(Notice::PageFailed("gone".to_string()).text(), Err("gone"));
    assert_eq!(Notice::DiscardFirst.text().map(|label| label.key), Ok("data.discard_first"));
}
