use rudbman_app::builder_pane::{
    columns_request, join_label, load_columns, sort_label, sorts, BuilderPane, CanvasCommand,
    CanvasMenu,
};
use rudbman_app::builder_sql::{names_to_spell, JoinKind, SortDir, SpelledTable};
use rudbman_app::context_menu::MenuRow;
use rudbman_app::data_pane::ObjectTarget;
use rudbman_app::erd_pane::{ColumnItem, ConnectionId, ErdColumn};
use rudbman_app::view::Caption;

fn target(name: &str) -> ObjectTarget {
    ObjectTarget {
        connection: ConnectionId(1),
        catalog: None,
        schema: Some("APP".to_string()),
        name: name.to_string(),
    }
}

fn columns(names: &[&str]) -> Vec<ErdColumn> {
    names
        .iter()
        .map(|name| ErdColumn {
            name: name.to_string(),
            type_text: "INTEGER".to_string(),
            nullable: true,
            primary_key: false,
            foreign_key: false,
        })
        .collect()
}

fn open() -> BuilderPane {
    BuilderPane::new(ConnectionId(1))
}

/// The names of a query in a product that writes each of them bare.
fn names(pane: &BuilderPane) -> Vec<SpelledTable> {
    names_to_spell(&pane.query)
        .into_iter()
        .map(|table| SpelledTable {
            reference: table.reference.join("."),
            columns: table.columns.iter().map(|name| format!("{}.{name}", table.alias)).collect(),
            alias: table.alias,
        })
        .collect()
}

fn sql(pane: &BuilderPane) -> String {
    pane.sql(&names(pane))
}

fn labels(rows: &[MenuRow<CanvasCommand>]) -> Vec<&str> {
    rows.iter()
        .map(|row| match row {
            MenuRow::Separator => "",
            MenuRow::Command { label, .. } => label.key,
        })
        .collect()
}

#[test]
fn an_empty_builder_has_no_statement() {
    let pane = open();
    assert_eq!(pane.table_count(), 0);
    assert_eq!(sql(&pane), "");
    // And "open in editor" over one says nothing rather than opening an empty
    // pane.
    assert_eq!(pane.open_in_editor(&names(&pane)), None);
    let preview = pane.preview(&names(&pane));
    assert_eq!(preview.text, Caption::Key("builder.no_sql"));
    assert!(!preview.can_open);
    assert_eq!(pane.connection(), ConnectionId(1));
}

#[test]
fn the_form_builds_the_statement_the_generator_writes() {
    let mut pane = open();
    pane.add_table(&target("PERSON"), columns(&["ID", "TEAM_ID", "NAME"]));
    pane.add_table(&target("TEAM"), columns(&["ID", "NAME", "OFFICE_ID"]));
    pane.add_table(&target("OFFICE"), columns(&["ID", "CITY"]));
    assert_eq!(pane.table_count(), 3);
    // Nothing picked yet, and nothing joined: three tables and two commas.
    assert_eq!(sql(&pane), "SELECT *\nFROM APP.PERSON,\n  APP.TEAM,\n  APP.OFFICE");

    pane.add_join((0, 1), (1, 0));
    pane.add_join((1, 2), (2, 0));
    // The same edge again, drawn the other way, is the same join.
    pane.add_join((2, 0), (1, 2));
    assert_eq!(pane.query.joins.len(), 2);
    pane.set_join_kind(1, JoinKind::Left);

    pane.toggle_column(0, 2);
    pane.toggle_column(2, 1);
    pane.toggle_group_by((2, 1));
    pane.set_order_by((0, 2), Some(SortDir::Desc));

    pane.add_condition();
    pane.set_condition(0, "PERSON.ID > 10");

    assert_eq!(
        sql(&pane),
        "SELECT PERSON.NAME, OFFICE.CITY\n\
         FROM APP.PERSON\n\
         \x20 INNER JOIN APP.TEAM ON PERSON.TEAM_ID = TEAM.ID\n\
         \x20 LEFT JOIN APP.OFFICE ON TEAM.OFFICE_ID = OFFICE.ID\n\
         WHERE PERSON.ID > 10\n\
         GROUP BY OFFICE.CITY\n\
         ORDER BY PERSON.NAME DESC"
    );

    // Unpicking a column takes its group and its sort with it.
    pane.toggle_column(2, 1);
    assert_eq!(
        sql(&pane),
        "SELECT PERSON.NAME\n\
         FROM APP.PERSON\n\
         \x20 INNER JOIN APP.TEAM ON PERSON.TEAM_ID = TEAM.ID\n\
         \x20 LEFT JOIN APP.OFFICE ON TEAM.OFFICE_ID = OFFICE.ID\n\
         WHERE PERSON.ID > 10\n\
         ORDER BY PERSON.NAME DESC"
    );

    // A deleted join drops back to a comma.
    pane.remove_join(1);
    pane.remove_condition(0);
    assert_eq!(
        sql(&pane),
        "SELECT PERSON.NAME\n\
         FROM APP.PERSON\n\
         \x20 INNER JOIN APP.TEAM ON PERSON.TEAM_ID = TEAM.ID,\n\
         \x20 APP.OFFICE\n\
         ORDER BY PERSON.NAME DESC"
    );
}

#[test]
fn the_same_table_twice_gets_an_alias() {
    let mut pane = open();
    pane.add_table(&target("PERSON"), columns(&["ID", "MANAGER_ID"]));
    pane.add_table(&target("PERSON"), columns(&["ID", "MANAGER_ID"]));
    pane.add_join((0, 1), (1, 0));

    assert_eq!(pane.query.tables[1].alias, "PERSON_2");
    assert_eq!(
        sql(&pane),
        "SELECT *\n\
         FROM APP.PERSON\n\
         \x20 INNER JOIN APP.PERSON PERSON_2 ON PERSON.MANAGER_ID = PERSON_2.ID"
    );
}

#[test]
fn opening_in_the_editor_hands_the_statement_over() {
    let mut pane = open();
    pane.add_table(&target("PERSON"), columns(&["ID"]));
    pane.toggle_column(0, 0);
    assert_eq!(
        pane.open_in_editor(&names(&pane)),
        Some("SELECT PERSON.ID\nFROM APP.PERSON".to_string())
    );
    let preview = pane.preview(&names(&pane));
    assert_eq!(preview.text, Caption::Text("SELECT PERSON.ID\nFROM APP.PERSON".to_string()));
    assert!(preview.can_open);
}

#[test]
fn one_tables_columns_load_in_catalogue_order() {
    let item = |name: &str, ordinal: i64, type_text: &str| ColumnItem {
        table: Some("PERSON".to_string()),
        name: Some(name.to_string()),
        ordinal: Some(ordinal),
        type_text: type_text.to_string(),
        nullable: Some(true),
    };
    let columns = load_columns(&vec![
        item("SALARY", 4, "NUMERIC(12,2)"),
        item("ID", 1, "INTEGER"),
        item("EMAIL", 3, "VARCHAR(80)"),
        item("TEAM_ID", 2, "INTEGER"),
    ]);

    let names: Vec<&str> = columns.iter().map(|column| column.name.as_str()).collect();
    assert_eq!(names, ["ID", "TEAM_ID", "EMAIL", "SALARY"]);
    assert_eq!(columns[3].type_text, "NUMERIC(12,2)");

    let request = columns_request(&target("PERSON"));
    assert_eq!(request.schema.as_deref(), Some("APP"));
}

#[test]
fn removing_a_table_takes_its_joins_and_its_picks_with_it() {
    let mut pane = open();
    pane.add_table(&target("PERSON"), columns(&["ID", "TEAM_ID"]));
    pane.add_table(&target("TEAM"), columns(&["ID", "OFFICE_ID"]));
    pane.add_table(&target("OFFICE"), columns(&["ID", "CITY"]));

    pane.add_join((0, 1), (1, 0));
    pane.add_join((1, 1), (2, 0));
    pane.toggle_column(0, 0);
    pane.toggle_column(1, 0);
    pane.toggle_column(2, 1);
    pane.toggle_group_by((2, 1));
    pane.set_order_by((2, 1), Some(SortDir::Desc));
    pane.set_order_by((0, 0), Some(SortDir::Asc));
    pane.add_condition();
    pane.set_condition(0, "OFFICE.CITY = 'Seoul'");

    pane.remove_table(1);

    // The middle table is gone, and the ones on either side keep their own
    // identity rather than shuffling into its place.
    let aliases: Vec<&str> = pane.query.tables.iter().map(|table| table.alias.as_str()).collect();
    assert_eq!(aliases, ["PERSON", "OFFICE"]);
    let boxes: Vec<&str> = pane.boxes.iter().map(|table| table.name.as_str()).collect();
    assert_eq!(boxes, ["PERSON", "OFFICE"]);

    // Both joins named it, so both are gone.
    assert!(pane.query.joins.is_empty(), "a join to a table that is gone");

    // Its picked column is gone; the two that survive are pointing at the same
    // columns they were, which for OFFICE means index 2 has become index 1.
    assert_eq!(pane.query.selected, vec![(0, 0), (1, 1)]);
    assert_eq!(pane.query.group_by, vec![(1, 1)]);
    assert_eq!(
        pane.query.order_by,
        vec![((1, 1), SortDir::Desc), ((0, 0), SortDir::Asc)]
    );
    assert_eq!(pane.label_of((1, 1)), "OFFICE.CITY");

    // The condition is the user's own words and is left alone.
    assert_eq!(pane.query.where_clauses.len(), 1);

    let written = sql(&pane);
    assert!(!written.contains("TEAM"), "the removed table is still named: {written}");
    assert!(written.contains("OFFICE.CITY"), "{written}");
    assert!(written.contains("PERSON.ID"), "{written}");

    // An index no table answers to changes nothing at all.
    let before = sql(&pane);
    pane.remove_table(9);
    assert_eq!(sql(&pane), before);
    assert_eq!(pane.table_count(), 2);
}

#[test]
fn the_canvas_menu_says_what_was_under_the_pointer() {
    let mut pane = open();
    pane.add_table(&target("PERSON"), columns(&["ID", "NAME"]));

    let rows = pane.canvas_rows(None);
    let background = labels(&rows);
    assert_eq!(background, ["context.zoom_in", "context.zoom_out", "context.zoom_reset"]);

    let rows = pane.canvas_rows(Some((0, None)));
    let band = labels(&rows);
    assert_eq!(band[0], "context.remove_table");
    assert_eq!(band[1], "", "the box's own command is a group of its own");
    assert_eq!(band[2..], background[..]);

    // A column not yet picked is offered the way in…
    let rows = pane.canvas_rows(Some((0, Some(1))));
    assert_eq!(labels(&rows)[1], "context.select_column");
    pane.toggle_column(0, 1);
    // …and once it is picked, the way out.
    let rows = pane.canvas_rows(Some((0, Some(1))));
    assert_eq!(labels(&rows)[1], "context.clear_column");
}

#[test]
fn a_right_click_on_the_canvas_leaves_a_menu_the_workspace_can_close() {
    let mut pane = open();
    pane.add_table(&target("PERSON"), columns(&["ID", "NAME"]));
    assert!(!pane.close_context_menu(), "a panel with no menu open claimed the key");
    pane.open_context_menu(Some((0, Some(1))));
    assert_eq!(pane.context_menu, Some(CanvasMenu { hit: Some((0, Some(1))) }));

    assert!(pane.close_context_menu(), "the key was not taken");
    assert!(pane.context_menu.is_none());
}

#[test]
fn the_form_lists_its_joins_and_its_columns() {
    let mut pane = open();
    pane.add_table(&target("PERSON"), columns(&["ID", "TEAM_ID"]));
    pane.add_table(&target("TEAM"), columns(&["ID"]));
    pane.add_join((0, 1), (1, 0));
    pane.toggle_column(0, 0);
    pane.set_order_by((0, 0), Some(SortDir::Asc));
    pane.toggle_group_by((0, 0));

    let joins = pane.join_rows();
    assert_eq!(joins.len(), 1);
    assert_eq!(joins[0].kind, "builder.join_inner");
    assert!(!joins[0].open);

    let rows = pane.column_rows();
    assert_eq!(rows.len(), 1);
    assert_eq!(rows[0].label, "PERSON.ID");
    assert!(rows[0].grouped);
    assert_eq!(rows[0].sorted, "builder.order_asc");

    // No order is the absence of the term.
    pane.set_order_by((0, 0), None);
    assert_eq!(pane.column_rows()[0].sorted, "builder.order_none");
}

#[test]
fn every_kind_and_every_order_has_a_label() {
    let kinds: Vec<&str> = JoinKind::all().iter().map(|kind| join_label(*kind)).collect();
    assert_eq!(
        kinds,
        ["builder.join_inner", "builder.join_left", "builder.join_right", "builder.join_full"]
    );
    let orders: Vec<&str> = sorts().iter().map(|order| sort_label(*order)).collect();
    assert_eq!(orders, ["builder.order_none", "builder.order_asc", "builder.order_desc"]);
}
