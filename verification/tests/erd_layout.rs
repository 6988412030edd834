use rudbman_app::erd_layout::{strip_bom, ErdLayouts, Position, ScopeLayout, CURRENT_VERSION};
use rudbman_app::erd_pane::Scope;
use rudbman_app::ordered::TextMap;

fn scope(schema: &str) -> Scope {
    Scope { catalog: None, schema: Some(schema.to_string()) }
}

fn at(x: f32, y: f32) -> Position {
    Position { x: x.to_bits(), y: y.to_bits() }
}

fn positions(entries: &[(&str, Position)]) -> TextMap<Position> {
    let mut map = TextMap::new();
    for (name, position) in entries {
        map.insert(name.to_string(), *position);
    }
    map
}

/// The layouts a file spells.
fn read(data: &[u8]) -> ErdLayouts {
    let value: serde_json::Value = serde_json::from_slice(data).expect("the file parses");
    let text = |value: &serde_json::Value| value.as_str().map(|text| text.to_string());
    let number = |value: &serde_json::Value| (value.as_f64().expect("a number") as f32).to_bits();
    let mut layouts = ErdLayouts::default();
    layouts.version = value["version"].as_u64().unwrap_or(0) as u32;
    for scope in value["scopes"].as_array().expect("a list") {
        let mut tables = TextMap::new();
        for (name, position) in scope["tables"].as_object().expect("a map") {
            tables.insert(
                name.clone(),
                Position { x: number(&position["x"]), y: number(&position["y"]) },
            );
        }
        layouts.scopes.push(ScopeLayout {
            catalog: text(&scope["catalog"]),
            schema: text(&scope["schema"]),
            tables,
        });
    }
    layouts
}

/// The file some layouts are spelled as.
fn written(layouts: &ErdLayouts) -> Vec<u8> {
    let mut scopes = Vec::new();
    for scope in &layouts.scopes {
        let mut tables = serde_json::Map::new();
        for (name, position) in scope.tables.entries() {
            let mut place = serde_json::Map::new();
            place.insert("x".to_string(), f32::from_bits(position.x).into());
            place.insert("y".to_string(), f32::from_bits(position.y).into());
            tables.insert(name.clone(), serde_json::Value::Object(place));
        }
        let mut entry = serde_json::Map::new();
        entry.insert("catalog".to_string(), scope.catalog.clone().into());
        entry.insert("schema".to_string(), scope.schema.clone().into());
        entry.insert("tables".to_string(), serde_json::Value::Object(tables));
        scopes.push(serde_json::Value::Object(entry));
    }
    let mut file = serde_json::Map::new();
    file.insert("version".to_string(), layouts.version.into());
    file.insert("scopes".to_string(), serde_json::Value::Array(scopes));
    serde_json::to_vec_pretty(&serde_json::Value::Object(file)).expect("it is written")
}

#[test]
fn a_file_that_is_not_there_yet_is_a_first_run() {
    let layouts = ErdLayouts::default();
    assert_eq!(layouts.version, 0);
    assert!(layouts.scopes.is_empty());
    assert!(layouts.positions(&scope("PUBLIC")).entries().is_empty());
}

#[test]
fn positions_survive_the_round_trip_scope_by_scope() {
    let mut layouts = ErdLayouts::default();
    layouts.set_positions(
        &scope("PUBLIC"),
        positions(&[("ORDERS", at(40., 40.)), ("CUSTOMERS", at(320., 40.))]),
    );
    // A second scope of the same profile is a second entry, not a merge: two
    // schemas routinely hold a table of the same name.
    layouts.set_positions(&scope("APP"), positions(&[("ORDERS", at(7., 9.))]));

    let read = read(&written(&layouts));
    assert_eq!(read.version, CURRENT_VERSION);
    assert_eq!(read.scopes.len(), 2);
    let public = read.positions(&scope("PUBLIC"));
    assert_eq!(public.get("ORDERS"), Some(&at(40., 40.)));
    assert_eq!(public.get("CUSTOMERS"), Some(&at(320., 40.)));
    assert_eq!(read.positions(&scope("APP")).get("ORDERS"), Some(&at(7., 9.)));
    // And a scope nobody has arranged still answers with nothing.
    assert!(read.positions(&scope("OTHER")).entries().is_empty());
}

#[test]
fn saving_a_scope_again_replaces_what_it_held() {
    let mut layouts = ErdLayouts::default();
    layouts.set_positions(
        &scope("PUBLIC"),
        positions(&[("ORDERS", at(10., 10.)), ("DROPPED", at(20., 20.))]),
    );
    layouts.set_positions(&scope("PUBLIC"), positions(&[("ORDERS", at(99., 99.))]));

    assert_eq!(layouts.scopes.len(), 1, "the scope was duplicated");
    let kept = layouts.positions(&scope("PUBLIC"));
    assert_eq!(kept.get("ORDERS"), Some(&at(99., 99.)));
    assert!(kept.get("DROPPED").is_none(), "a table the diagram no longer has was kept");
}

#[test]
fn a_byte_order_mark_is_tolerated() {
    let mut bytes = b"\xEF\xBB\xBF".to_vec();
    bytes.extend_from_slice(
        br#"{"version":1,"scopes":[{"schema":"PUBLIC","tables":{"T":{"x":1.0,"y":2.0}}}]}"#,
    );
    let layouts = read(strip_bom(&bytes));
    assert_eq!(layouts.positions(&scope("PUBLIC")).get("T"), Some(&at(1., 2.)));
    assert_eq!(strip_bom(b"\xEF\xBB"), b"\xEF\xBB");
    assert_eq!(strip_bom(b"{}"), b"{}");
}

#[test]
fn a_profiles_file_is_named_by_its_identifier() {
    assert_eq!(
        ErdLayouts::file_for(0x67e55044_10b1_426f_9247_bb680e5fe0c8),
        "67e55044-10b1-426f-9247-bb680e5fe0c8.json"
    );
    assert_eq!(ErdLayouts::file_for(0), "00000000-0000-0000-0000-000000000000.json");
    let id = uuid::Uuid::new_v4();
    assert_eq!(ErdLayouts::file_for(id.as_u128()), format!("{id}.json"));
    assert_ne!(ErdLayouts::file_for(1), ErdLayouts::file_for(2));
}

#[test]
fn the_tables_of_a_scope_are_kept_in_the_order_of_their_names() {
    let mut layouts = ErdLayouts::default();
    layouts.set_positions(
        &scope("PUBLIC"),
        positions(&[("B", at(1., 1.)), ("A", at(2., 2.)), ("AB", at(3., 3.))]),
    );
    let names: Vec<&str> =
        layouts.scopes[0].tables.entries().iter().map(|(name, _)| name.as_str()).collect();
    assert_eq!(names, ["A", "AB", "B"]);
}
