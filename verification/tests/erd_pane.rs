use rudbman_app::erd_pane::{
    edges_of, in_scope, load_model, requests_after, table_names, tables_request, ColumnItem,
    ConnectionId, DescribeKind, ErdBody, ErdColumn, ErdModel, ErdPane, ErdPaneEvent, ErdTable,
    ErdTarget, ImportedKey, Scope, TableKeys,
};
use rudbman_app::view::{Caption, Tone};

fn target(schema: &str) -> ErdTarget {
    ErdTarget {
        connection: ConnectionId(1),
        scope: Scope { catalog: None, schema: Some(schema.to_string()) },
    }
}

fn part(text: &str) -> Option<String> {
    Some(text.to_string())
}

fn column_item(table: &str, name: &str, ordinal: i64, kind: &str, nullable: bool) -> ColumnItem {
    ColumnItem {
        table: part(table),
        name: part(name),
        ordinal: Some(ordinal),
        type_text: kind.to_string(),
        nullable: Some(nullable),
    }
}

fn team_key(pk_schema: Option<&str>) -> ImportedKey {
    ImportedKey {
        pk_catalog: None,
        pk_schema: pk_schema.map(|schema| schema.to_string()),
        pk_table: part("TEAM"),
        pk_column: part("ID"),
        fk_column: part("TEAM_ID"),
        fk_name: part("FK_PERSON_TEAM"),
        seq: Some(1),
    }
}

/// The catalogue of two tables with a foreign key between them, as a driver
/// reports it.
fn fixture() -> ErdModel {
    let target = target("APP");
    let names = table_names(&vec![part("TEAM"), None, part("PERSON")]);
    let columns = vec![
        column_item("PERSON", "SALARY", 4, "NUMERIC(12,2)", true),
        column_item("PERSON", "ID", 1, "INTEGER", false),
        column_item("PERSON", "EMAIL", 3, "CHARACTER VARYING(200)", true),
        column_item("PERSON", "TEAM_ID", 2, "INTEGER", false),
        column_item("TEAM", "ID", 1, "INTEGER", false),
        column_item("PERSON_EMAIL", "EMAIL", 1, "CHARACTER VARYING(200)", true),
    ];
    let keys = vec![
        TableKeys { primary: vec![part("ID")], imported: vec![team_key(Some("APP"))] },
        TableKeys { primary: vec![part("ID")], imported: Vec::new() },
    ];
    load_model(&target.scope, &names, &columns, &keys)
}

fn table<'a>(model: &'a ErdModel, name: &str) -> &'a ErdTable {
    model
        .tables
        .iter()
        .find(|table| table.name == name)
        .unwrap_or_else(|| panic!("no table {name} in {:?}", model.tables))
}

fn column<'a>(table: &'a ErdTable, name: &str) -> &'a ErdColumn {
    table
        .columns
        .iter()
        .find(|column| column.name == name)
        .unwrap_or_else(|| panic!("no column {name} in {:?}", table.columns))
}

#[test]
fn a_schema_with_a_foreign_key_becomes_two_boxes_and_one_line() {
    let model = fixture();
    let names: Vec<&str> = model.tables.iter().map(|table| table.name.as_str()).collect();
    assert_eq!(names, ["PERSON", "TEAM"], "sorted, and tables only");

    let person = table(&model, "PERSON");
    // Columns in the order of their ordinals.
    let columns: Vec<&str> = person.columns.iter().map(|column| column.name.as_str()).collect();
    assert_eq!(columns, ["ID", "TEAM_ID", "EMAIL", "SALARY"]);
    assert_eq!(column(person, "SALARY").type_text, "NUMERIC(12,2)");
    assert_eq!(column(person, "EMAIL").type_text, "CHARACTER VARYING(200)");

    // The two marks the canvas colours a row by.
    assert!(column(person, "ID").primary_key);
    assert!(!column(person, "ID").foreign_key);
    assert!(column(person, "TEAM_ID").foreign_key);
    assert!(!column(person, "TEAM_ID").primary_key);
    assert!(!column(person, "TEAM_ID").nullable, "declared NOT NULL");
    assert!(column(person, "EMAIL").nullable);

    // One relation, and it points the way JDBC does: from the table that holds
    // the key to the table whose key is referenced.
    assert_eq!(model.relations.len(), 1, "{:?}", model.relations);
    let relation = &model.relations[0];
    assert_eq!(model.tables[relation.from].name, "PERSON");
    assert_eq!(model.tables[relation.to].name, "TEAM");
    assert_eq!(relation.columns, vec![("TEAM_ID".to_string(), "ID".to_string())]);
    assert_eq!(relation.name.as_deref(), Some("FK_PERSON_TEAM"));
}

#[test]
fn the_same_schema_loads_the_same_way_twice() {
    assert_eq!(fixture(), fixture());
}

#[test]
fn an_unknown_schema_is_an_empty_diagram() {
    let scope = target("NOSUCHSCHEMA").scope;
    let names = table_names(&Vec::new());
    let model = load_model(&scope, &names, &Vec::new(), &Vec::new());
    assert!(model.tables.is_empty(), "{:?}", model.tables);
    assert!(model.relations.is_empty());
}

#[test]
fn an_edge_out_of_the_scope_is_dropped() {
    let scope = Scope { catalog: None, schema: part("APP") };
    assert_eq!(edges_of("PERSON", &vec![team_key(Some("APP"))], &scope).len(), 1);
    assert!(
        edges_of("PERSON", &vec![team_key(Some("OTHER"))], &scope).is_empty(),
        "a key into another schema was kept"
    );
    assert!(in_scope(&team_key(None), &scope), "a driver that says nothing is believed");
}

#[test]
fn a_composite_key_is_one_edge_with_its_pairs_in_key_order() {
    let scope = Scope::default();
    let row = |seq: i64, fk: &str, pk: &str| ImportedKey {
        pk_catalog: None,
        pk_schema: None,
        pk_table: part("PARENT"),
        pk_column: part(pk),
        fk_column: part(fk),
        fk_name: part("FK_CHILD_PARENT"),
        seq: Some(seq),
    };

    // Handed over in the wrong order on purpose: `KEY_SEQ` is what orders the
    // pairs, not the order the driver answered in.
    let edges = edges_of("CHILD", &vec![row(2, "B_ID", "B"), row(1, "A_ID", "A")], &scope);
    assert_eq!(edges.len(), 1, "a composite key became two lines");
    assert_eq!(
        edges[0].columns,
        vec![("A_ID".to_string(), "A".to_string()), ("B_ID".to_string(), "B".to_string())]
    );
    let turned = edges_of("CHILD", &vec![row(1, "A_ID", "A"), row(2, "B_ID", "B")], &scope);
    assert_eq!(turned, edges, "the order of the answer shows");
}

#[test]
fn keys_with_no_name_are_grouped_by_the_table_they_point_at() {
    let scope = Scope::default();
    let row = |pk_table: &str, fk: &str| ImportedKey {
        pk_catalog: None,
        pk_schema: None,
        pk_table: part(pk_table),
        pk_column: part("ID"),
        fk_column: part(fk),
        fk_name: None,
        seq: Some(1),
    };

    let edges = edges_of(
        "CHILD",
        &vec![row("PARENT", "PARENT_ID"), row("OTHER", "OTHER_ID")],
        &scope,
    );
    assert_eq!(edges.len(), 2, "two targets must not merge into one line");
    // Sorted by the table referenced, which is what makes the list the same on
    // the next fetch.
    assert_eq!(edges[0].to, "OTHER");
    assert_eq!(edges[1].to, "PARENT");
}

#[test]
fn a_scope_with_nothing_in_it_still_titles_its_tab() {
    let bare = ErdTarget { connection: ConnectionId(1), scope: Scope::default() };
    assert_eq!(bare.qualified(), "");
    assert_eq!(bare.title().key, "erd.tab_all");
    assert_eq!(bare.file_stem(), "diagram");

    let scoped = ErdTarget {
        connection: ConnectionId(1),
        scope: Scope { catalog: part("app"), schema: part("public") },
    };
    assert_eq!(scoped.qualified(), "app.public");
    assert_eq!(scoped.title().key, "erd.tab");
    assert_eq!(scoped.title().args, vec![("scope", Caption::Text("app.public".to_string()))]);
    assert_eq!(scoped.file_stem(), "app_public");
}

#[test]
fn opening_a_panel_leaves_it_loading_until_the_host_asks() {
    let panel = ErdPane::new(target("PUBLIC"));
    assert!(panel.is_loading());
    assert!(panel.table_count().is_none());
    assert_eq!(panel.target(), &target("PUBLIC"));
}

#[test]
fn the_request_reaches_a_subscription_registered_after_construction() {
    let mut panel = ErdPane::new(target("PUBLIC"));
    match panel.refresh() {
        ErdPaneEvent::Load(target) => assert_eq!(target.qualified(), "PUBLIC"),
        other => panic!("{other:?}"),
    }
}

#[test]
fn a_rearrangement_is_passed_on_for_the_host_to_save() {
    let mut panel = ErdPane::new(target("APP"));
    panel.deliver(Ok(2));
    match panel.layout_changed() {
        ErdPaneEvent::LayoutChanged(moved) => assert_eq!(moved, target("APP")),
        other => panic!("{other:?}"),
    }
    assert_eq!(panel.table_count(), Some(2));
    assert!(panel.focus_goes_to_the_canvas());
}

#[test]
fn a_failed_load_is_reported_and_not_mistaken_for_an_empty_schema() {
    let mut panel = ErdPane::new(target("PUBLIC"));
    panel.deliver(Err("permission denied".to_string()));
    assert!(!panel.is_loading());
    assert!(panel.table_count().is_none());
    assert_eq!(panel.failure().map(String::as_str), Some("permission denied"));
    let failed = panel.body();
    panel.deliver(Ok(0));
    assert_ne!(panel.body(), failed);
    assert!(!panel.focus_goes_to_the_canvas());
    panel.deliver(Ok(1));
    assert_eq!(panel.body(), ErdBody::Canvas);
}

#[test]
fn the_catalogue_is_asked_for_tables_then_columns_then_keys() {
    let scope = target("APP").scope;
    let first = tables_request(&scope);
    assert_eq!(first.kind, DescribeKind::Tables);
    assert_eq!(first.types, Some("TABLE"));
    assert_eq!(first.schema.as_deref(), Some("APP"));

    let rest = requests_after(&scope, &vec!["PERSON".to_string(), "TEAM".to_string()]);
    let asked: Vec<(DescribeKind, Option<&str>)> =
        rest.iter().map(|request| (request.kind, request.table.as_deref())).collect();
    assert_eq!(
        asked,
        vec![
            (DescribeKind::Columns, None),
            (DescribeKind::PrimaryKeys, Some("PERSON")),
            (DescribeKind::ImportedKeys, Some("PERSON")),
            (DescribeKind::PrimaryKeys, Some("TEAM")),
            (DescribeKind::ImportedKeys, Some("TEAM")),
        ]
    );
}

#[test]
fn a_line_to_a_table_that_is_not_drawn_is_left_out() {
    let names = vec!["PERSON".to_string()];
    let keys = vec![TableKeys { primary: Vec::new(), imported: vec![team_key(Some("APP"))] }];
    let columns = vec![column_item("PERSON", "TEAM_ID", 1, "INTEGER", true)];
    let model = load_model(&target("APP").scope, &names, &columns, &keys);
    assert!(model.relations.is_empty());
    assert_eq!(model.tables.len(), 1);
}

#[test]
fn an_export_says_where_it_went() {
    let mut panel = ErdPane::new(target("APP"));
    assert_eq!(panel.suggested_file(), "APP.svg");
    panel.deliver(Ok(1));
    panel.exported(Ok("/tmp/APP.svg".to_string()));
    let (label, tone) = panel.toolbar().notice.expect("it is said");
    assert_eq!(label.key, "erd.export_done");
    assert_eq!(tone, Tone::Muted);
    panel.exported(Err("no room".to_string()));
    let (label, tone) = panel.toolbar().notice.expect("it is said");
    assert_eq!(label.key, "erd.export_failed");
    assert_eq!(label.args, vec![("error", Caption::Text("no room".to_string()))]);
    assert_eq!(tone, Tone::Danger);
    let buttons: Vec<&str> = panel.toolbar().buttons.iter().map(|button| button.id).collect();
    assert_eq!(buttons, ["erd-arrange", "erd-export", "erd-refresh"]);
}

#[test]
fn an_answer_in_another_order_draws_the_same_diagram() {
    let scope = target("APP").scope;
    let pair = |seq: i64, column: &str, references: &str| ImportedKey {
        pk_column: part(references),
        fk_column: part(column),
        seq: Some(seq),
        ..team_key(Some("APP"))
    };
    let drawn = |turned: bool| {
        let mut reported = vec![part("TEAM"), part("PERSON"), part("TEAM")];
        let mut columns = vec![
            column_item("PERSON", "ID", 1, "INTEGER", false),
            ColumnItem { ordinal: None, ..column_item("PERSON", "NOTE", 0, "CLOB", true) },
            ColumnItem { ordinal: None, ..column_item("PERSON", "BODY", 0, "CLOB", true) },
            column_item("TEAM", "ID", 1, "INTEGER", false),
        ];
        let mut primary = vec![part("ID"), part("NOTE")];
        let mut imported = vec![pair(1, "ID", "ID"), pair(2, "NOTE", "CODE")];
        if turned {
            reported.reverse();
            columns.reverse();
            primary.reverse();
            imported.reverse();
        }
        let names = table_names(&reported);
        let keys = vec![
            TableKeys { primary, imported },
            TableKeys { primary: vec![part("ID")], imported: Vec::new() },
        ];
        load_model(&scope, &names, &columns, &keys)
    };
    let model = drawn(false);
    assert_eq!(model, drawn(true));
    let columns: Vec<&str> =
        table(&model, "PERSON").columns.iter().map(|column| column.name.as_str()).collect();
    assert_eq!(columns, ["ID", "BODY", "NOTE"]);
    assert_eq!(
        model.relations[0].columns,
        vec![("ID".to_string(), "ID".to_string()), ("NOTE".to_string(), "CODE".to_string())]
    );
}

#[test]
fn the_lines_of_a_table_ascend() {
    let scope = target("APP").scope;
    let key = |to: &str, name: Option<&str>| ImportedKey {
        pk_table: part(to),
        fk_name: name.map(|name| name.to_string()),
        ..team_key(Some("APP"))
    };
    let rows = vec![
        key("TEAM", Some("B")),
        key("OFFICE", Some("Z")),
        key("TEAM", None),
        key("TEAM", Some("A")),
    ];
    let edges = edges_of("PERSON", &rows, &scope);
    let order: Vec<(&str, Option<&str>)> =
        edges.iter().map(|edge| (edge.to.as_str(), edge.name.as_deref())).collect();
    assert_eq!(
        order,
        [("OFFICE", Some("Z")), ("TEAM", None), ("TEAM", Some("A")), ("TEAM", Some("B"))]
    );
}
