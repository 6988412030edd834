//! What a diagram asks for, what it is called and where it is kept, and in which order
//! its columns stand.

use vstd::prelude::*;

use crate::app_settings::{placed, placement_of, records, WindowGeometry, WindowState};
use crate::erd_layout::{
    hex_char, hex_text, is_of_scope, layout_file, positions_in, positions_put, uuid_chars,
    without_mark, ErdLayouts, LayoutText, Position, ScopeLayout,
};
use crate::erd_pane::{
    column_key, columns_in_order, columns_reported, erd_body, erd_buttons, export_notice,
    is_table_list, later_requests, ordered_pairs, pair_key, qualified_scope, scoped, stem_of,
    title_of, ColumnItem, ColumnItemText, DescribeKind, DescribeRequest, Edge, ErdColumn,
    ErdRelation, ErdTable, ImportedKey, Load, Scope,
};
use crate::ordered::text_less;
use crate::sorting::{
    in_order, key_less, place_before, sorting_keeps_and_orders, sorting_orders_every_place,
    stable_order,
};
use crate::text::{is_blank, maybe_text};
use crate::view::{ButtonVariant, CaptionText, Tone};

verus! {

/// A scope is called by its catalogue and its schema with a point between them, by the one
/// it has where it has one, and by nothing where it has none; a blank name is none.
pub proof fn a_scope_is_called_by_its_halves(scope: Scope)
    ensures
        ({
            let catalog = scope.catalog is Some && !is_blank(scope.catalog.unwrap()@);
            let schema = scope.schema is Some && !is_blank(scope.schema.unwrap()@);
            &&& catalog && schema ==> qualified_scope(scope) == scope.catalog.unwrap()@ + "."@
                + scope.schema.unwrap()@
            &&& catalog && !schema ==> qualified_scope(scope) == scope.catalog.unwrap()@
            &&& !catalog && schema ==> qualified_scope(scope) == scope.schema.unwrap()@
            &&& !catalog && !schema ==> qualified_scope(scope).len() == 0
        }),
{
    let none = Seq::<Seq<char>>::empty();
    if scope.catalog is Some && !is_blank(scope.catalog.unwrap()@) {
        let catalog = scope.catalog.unwrap()@;
        if scope.schema is Some && !is_blank(scope.schema.unwrap()@) {
            let schema = scope.schema.unwrap()@;
            crate::text::joining_one_more(seq![catalog], "."@, schema);
            crate::text::joining_one_more(none, "."@, catalog);
            assert(seq![catalog] + seq![schema] =~= seq![catalog].push(schema));
            assert(none.push(catalog) =~= seq![catalog]);
        } else {
            crate::text::joining_one_more(none, "."@, catalog);
            assert(seq![catalog] + none =~= none.push(catalog));
        }
    } else if scope.schema is Some && !is_blank(scope.schema.unwrap()@) {
        let schema = scope.schema.unwrap()@;
        crate::text::joining_one_more(none, "."@, schema);
        assert(none + seq![schema] =~= none.push(schema));
    } else {
        assert(none + none =~= none);
    }
}

/// A file is called after its scope, character for character, with what a file name cannot
/// hold replaced; without a scope it is called a diagram. The tab carries the scope, or
/// says that it is all of them.
pub proof fn a_file_is_called_after_its_scope(name: Seq<char>, scope: Scope, i: int)
    ensures
        name.len() == 0 ==> stem_of(name) == "diagram"@,
        name.len() > 0 ==> stem_of(name).len() == name.len(),
        0 <= i < name.len() ==> stem_of(name)[i] == if name[i] == '.' || name[i] == '/' || name[i]
            == '\\' || name[i] == ':' {
            '_'
        } else {
            name[i]
        },
        qualified_scope(scope).len() == 0 ==> title_of(scope).key == "erd.tab_all" && title_of(
            scope,
        ).args.len() == 0,
        qualified_scope(scope).len() > 0 ==> title_of(scope).key == "erd.tab" && title_of(
            scope,
        ).args == seq![("scope", CaptionText::Text(qualified_scope(scope)))],
{
}

/// A request carries the halves of the scope as they are and the table it is about. Only
/// the request for the tables asks for a kind of table.
pub proof fn a_request_stays_in_its_scope(
    scope: Scope,
    kind: DescribeKind,
    table: Option<Seq<char>>,
    names: Seq<Seq<char>>,
    at: int,
)
    ensures
        scoped(scope, kind, table).kind == kind,
        scoped(scope, kind, table).catalog == maybe_text(scope.catalog),
        scoped(scope, kind, table).schema == maybe_text(scope.schema),
        scoped(scope, kind, table).table == table,
        scoped(scope, kind, table).types is Some <==> kind == DescribeKind::Tables,
        later_requests(scope, names).len() == 1 + 2 * names.len(),
        0 <= at < later_requests(scope, names).len() ==> {
            let request = later_requests(scope, names)[at];
            &&& request.catalog == maybe_text(scope.catalog)
            &&& request.schema == maybe_text(scope.schema)
            &&& request.types is None
            &&& at == 0 ==> request.kind == DescribeKind::Columns && request.table is None
            &&& at > 0 && at % 2 == 1 ==> request.kind == DescribeKind::PrimaryKeys && request.table
                == Some(names[(at - 1) / 2])
            &&& at > 0 && at % 2 == 0 ==> request.kind == DescribeKind::ImportedKeys
                && request.table == Some(names[(at - 2) / 2])
        },
{
    crate::erd_pane::what_is_asked(scope, names);
    if 0 < at < later_requests(scope, names).len() {
        if at % 2 == 1 {
            let i = (at - 1) / 2;
            assert(at == 1 + 2 * i);
            assert(later_requests(scope, names)[1 + 2 * i] == scoped(
                scope,
                DescribeKind::PrimaryKeys,
                Some(names[i]),
            ));
        } else {
            let i = (at - 2) / 2;
            assert(at == 2 + 2 * i);
            assert(later_requests(scope, names)[1 + 2 * i] == scoped(
                scope,
                DescribeKind::PrimaryKeys,
                Some(names[i]),
            ));
        }
    }
}

/// Every table that was reported with a name is listed, once and in order, and no other.
pub proof fn every_table_is_listed(list: Seq<Seq<char>>, reported: Seq<Option<String>>)
    requires
        is_table_list(list, reported),
    ensures
        forall|i: int|
            0 <= i < reported.len() && (#[trigger] reported[i]) is Some ==> list.contains(
                reported[i].unwrap()@,
            ),
        forall|k: int|
            0 <= k < list.len() ==> reported.map_values(
                |name: Option<String>| maybe_text(name),
            ).contains(Some(#[trigger] list[k])),
        forall|i: int, j: int|
            0 <= i < j < list.len() ==> text_less(#[trigger] list[i], #[trigger] list[j]),
{
    assert forall|i: int| 0 <= i < reported.len() && (#[trigger] reported[i]) is Some implies list.contains(
        reported[i].unwrap()@,
    ) by {
        assert(maybe_text(reported[i]) == Some(reported[i].unwrap()@));
    }
    let named = reported.map_values(|name: Option<String>| maybe_text(name));
    assert forall|k: int| 0 <= k < list.len() implies named.contains(Some(#[trigger] list[k])) by {
        assert(list.contains(list[k]));
        let i = choose|i: int|
            0 <= i < reported.len() && maybe_text(#[trigger] reported[i]) == Some(list[k]);
        assert(named[i] == Some(list[k]));
    }
}

/// Columns at one place of a table stand in the order of their names.
pub proof fn columns_at_one_place_are_ordered_by_name(
    items: Seq<ColumnItemText>,
    table: Seq<char>,
    i: int,
    j: int,
)
    requires
        0 <= i < j < columns_in_order(items, table).len(),
    ensures
        ({
            let a = columns_in_order(items, table)[i];
            let b = columns_in_order(items, table)[j];
            a.ordinal == b.ordinal && a.name is Some && b.name is Some ==> !text_less(
                b.name.unwrap(),
                a.name.unwrap(),
            )
        }),
{
    let mine = columns_reported(items, table);
    let key = |c: ColumnItemText| column_key(c);
    sorting_keeps_and_orders(mine, key);
    let sorted = in_order(mine, key);
    assert(columns_in_order(items, table) =~= sorted);
    assert(!key_less(key(sorted[j]), key(sorted[i])));
}

/// The columns of a key stand in the order of their numbers, and of their names where two
/// have the same; none is lost.
pub proof fn the_columns_of_a_key_are_ordered(
    pairs: Seq<(i64, Seq<char>, Seq<char>)>,
    a: int,
    b: int,
)
    requires
        0 <= a < pairs.len(),
        0 <= b < pairs.len(),
        pairs[a].0 < pairs[b].0 || (pairs[a].0 == pairs[b].0 && text_less(pairs[a].1, pairs[b].1)),
    ensures
        ordered_pairs(pairs).len() == pairs.len(),
        exists|i: int, j: int|
            0 <= i < j < pairs.len() && #[trigger] ordered_pairs(pairs)[i] == (
                pairs[a].1,
                pairs[a].2,
            ) && #[trigger] ordered_pairs(pairs)[j] == (pairs[b].1, pairs[b].2),
{
    let keys = pairs.map_values(|p: (i64, Seq<char>, Seq<char>)| pair_key(p));
    sorting_orders_every_place(keys, keys.len());
    let order = stable_order(keys);
    assert(order.contains(a));
    assert(order.contains(b));
    let i = choose|i: int| 0 <= i < order.len() && order[i] == a;
    let j = choose|j: int| 0 <= j < order.len() && order[j] == b;
    assert(key_less(keys[a], keys[b]));
    crate::sorting::keys_are_ordered(keys[a], keys[b], keys[a]);
    if i == j {
        assert(key_less(keys[a], keys[a]));
    } else if j < i {
        assert(place_before(keys, order[j], order[i]));
    }
    assert(ordered_pairs(pairs)[i] == (pairs[a].1, pairs[a].2));
    assert(ordered_pairs(pairs)[j] == (pairs[b].1, pairs[b].2));
}

/// An export says where the file is, or why there is none, and only the latter is an error.
pub proof fn an_export_says_how_it_went(outcome: Result<String, String>)
    ensures
        match outcome {
            Ok(path) => {
                &&& export_notice(outcome).0.key == "erd.export_done"
                &&& export_notice(outcome).0.args == seq![("path", CaptionText::Text(path@))]
                &&& !export_notice(outcome).1
            },
            Err(error) => {
                &&& export_notice(outcome).0.key == "erd.export_failed"
                &&& export_notice(outcome).0.args == seq![("error", CaptionText::Text(error@))]
                &&& export_notice(outcome).1
            },
        },
{
}

/// The diagram can be arranged and exported once it is there, and fetched again unless a
/// fetch is out.
pub proof fn what_can_be_done_with_a_diagram(load: Load)
    ensures
        ({
            let buttons = erd_buttons(load);
            &&& buttons.len() == 3
            &&& buttons[0].id == "erd-arrange"
            &&& buttons[0].label == "erd.auto_arrange"
            &&& buttons[0].enabled == (load is Ready)
            &&& buttons[1].id == "erd-export"
            &&& buttons[1].label == "erd.export_svg"
            &&& buttons[1].enabled == (load is Ready)
            &&& buttons[2].id == "erd-refresh"
            &&& buttons[2].label == "erd.refresh"
            &&& buttons[2].enabled == !(load is Running)
            &&& forall|i: int| 0 <= i < 3 ==> (#[trigger] buttons[i]).variant
                == ButtonVariant::Secondary
        }),
{
}

/// The canvas is drawn where there is a table to draw; else one line says that the diagram
/// is on its way, why it is not there, or that there is nothing in it.
pub proof fn a_diagram_without_tables_says_so(load: Load)
    ensures
        erd_body(load) is None <==> (load matches Load::Ready(count) && count > 0),
        erd_body(load) matches Some((line, tone)) ==> match load {
            Load::Running => line.key == "erd.loading" && line.args.len() == 0 && tone
                == Tone::Muted,
            Load::Failed(message) => line.key == "erd.load_failed" && line.args == seq![
                ("error", CaptionText::Text(message@)),
            ] && tone == Tone::Danger,
            Load::Ready(count) => count == 0 && line.key == "erd.empty" && line.args.len() == 0
                && tone == Tone::Muted,
        },
{
}

/// An entry is of a scope where both halves are the same, and two scopes that differ in
/// either have entries of their own.
pub proof fn a_layout_is_of_one_scope(entry: LayoutText, scope: Scope)
    ensures
        is_of_scope(entry, scope) <==> entry.catalog == maybe_text(scope.catalog) && entry.schema
            == maybe_text(scope.schema),
{
}

/// The positions of a scope are those of the first entry that is of it, and none where
/// there is no such entry. Saving replaces that entry's positions, or adds an entry behind
/// the others; no other entry is touched and none is moved.
pub proof fn positions_are_saved_in_place(
    list: Seq<LayoutText>,
    scope: Scope,
    tables: Map<Seq<char>, Position>,
    at: int,
)
    requires
        0 <= at <= list.len(),
        forall|k: int| 0 <= k < at ==> !is_of_scope(#[trigger] list[k], scope),
        at < list.len() ==> is_of_scope(list[at], scope),
    ensures
        at == list.len() ==> positions_in(list, scope) == Map::<Seq<char>, Position>::empty(),
        at < list.len() ==> positions_in(list, scope) == list[at].tables,
        ({
            let after = positions_put(list, scope, tables);
            &&& at < list.len() ==> after == list.update(at, (LayoutText { tables, ..list[at] }))
            &&& at == list.len() ==> {
                &&& after.len() == list.len() + 1
                &&& after.drop_last() == list
                &&& after.last().catalog == maybe_text(scope.catalog)
                &&& after.last().schema == maybe_text(scope.schema)
                &&& after.last().tables == tables
            }
        }),
    decreases list.len(),
{
    if list.len() > 0 && at > 0 {
        assert(!is_of_scope(list[0], scope));
        let rest = list.subrange(1, list.len() as int);
        assert forall|k: int| 0 <= k < at - 1 implies !is_of_scope(#[trigger] rest[k], scope) by {
            assert(rest[k] == list[k + 1]);
        }
        positions_are_saved_in_place(rest, scope, tables, at - 1);
        let after = positions_put(list, scope, tables);
        if at < list.len() {
            assert(after =~= list.update(at, LayoutText { tables, ..list[at] }));
        } else {
            let others = positions_put(rest, scope, tables);
            assert(after =~= seq![list[0]] + others);
            assert(others.drop_last() == rest);
            assert(after.drop_last() =~= seq![list[0]] + rest);
            assert(seq![list[0]] + rest =~= list);
        }
    } else if list.len() == 0 {
        assert(positions_put(list, scope, tables).drop_last() =~= list);
    } else {
        assert(positions_put(list, scope, tables) =~= list.update(
            0,
            LayoutText { tables, ..list[0] },
        ));
    }
}

/// A number in hexadecimal is the number without its last digit, and that digit behind it.
pub proof fn a_hexadecimal_number_is_its_digits(id: nat, d: nat, n: nat)
    requires
        d < 16,
    ensures
        hex_text(id, 0).len() == 0,
        hex_text(16 * id + d, n + 1) == hex_text(id, n).push(hex_char(d)),
        hex_char(d) == "0123456789abcdef"@[d as int],
{
    assert((16 * id + d) / 16 == id && (16 * id + d) % 16 == d) by (nonlinear_arith)
        requires
            d < 16,
    ;
    reveal_strlit("0123456789abcdef");
    assert(((n + 1) - 1) as nat == n);
}

/// The file of a profile is named by its thirty-two digits, in groups that lines part, and
/// ends as its format does.
pub proof fn a_file_is_named_by_its_digits(id: nat, i: int)
    requires
        0 <= i < 32,
    ensures
        hex_text(id, 32).len() == 32,
        layout_file(id).len() == 41,
        layout_file(id).skip(36) == ".json"@,
        layout_file(id)[8] == '-',
        layout_file(id)[13] == '-',
        layout_file(id)[18] == '-',
        layout_file(id)[23] == '-',
        ({
            let lines: int = if i < 8 {
                0
            } else if i < 12 {
                1
            } else if i < 16 {
                2
            } else if i < 20 {
                3
            } else {
                4
            };
            layout_file(id)[i + lines] == hex_text(id, 32)[i]
        }),
{
    lemma_hex_len(id, 32);
    reveal_strlit(".json");
    let chars = uuid_chars(id);
    assert(chars.len() == 36);
    assert(layout_file(id).skip(36) =~= ".json"@);
}

proof fn lemma_hex_len(id: nat, n: nat)
    ensures
        hex_text(id, n).len() == n,
    decreases n,
{
    if n > 0 {
        lemma_hex_len(id / 16, (n - 1) as nat);
    }
}

/// A mark at the start of a file is passed over, and nothing else is.
pub proof fn a_mark_is_passed_over(data: Seq<u8>, rest: Seq<u8>)
    ensures
        without_mark(seq![0xEFu8, 0xBB, 0xBF] + rest) == rest,
        data.len() < 3 || data[0] != 0xEF || data[1] != 0xBB || data[2] != 0xBF ==> without_mark(
            data,
        ) == data,
{
    assert((seq![0xEFu8, 0xBB, 0xBF] + rest).skip(3) =~= rest);
}

/// A window is where it was put, and how it is drawn is not touched; it is somewhere only
/// where both its coordinates are known. A placement is on record where every part of it
/// is.
pub proof fn a_window_is_where_it_was_put(geometry: WindowGeometry, state: WindowState)
    ensures
        placed(geometry, state).x == Some(geometry.x),
        placed(geometry, state).y == Some(geometry.y),
        placed(geometry, state).width == geometry.width,
        placed(geometry, state).height == geometry.height,
        placed(geometry, state).maximized == geometry.maximized,
        placed(geometry, state).background_opacity == state.background_opacity,
        placed(geometry, state).background_blur == state.background_blur,
        placed(geometry, state).titlebar == state.titlebar,
        records(geometry, state) <==> state.x == Some(geometry.x) && state.y == Some(geometry.y)
            && state.width == geometry.width && state.height == geometry.height && state.maximized
            == geometry.maximized,
        placement_of(state) is Some <==> state.x is Some && state.y is Some,
        placement_of(state) matches Some(found) ==> state.x == Some(found.x) && state.y == Some(
            found.y,
        ) && found.width == state.width && found.height == state.height && found.maximized
            == state.maximized,
{
}

/// What a driver reported, what is asked of it and what is drawn read as they are.
pub proof fn a_report_reads_as_it_is(
    column: ColumnItem,
    key: ImportedKey,
    request: DescribeRequest,
    edge: Edge,
    shown: ErdColumn,
    table: ErdTable,
    line: ErdRelation,
    layout: ScopeLayout,
    layouts: ErdLayouts,
)
    ensures
        column@.table == maybe_text(column.table),
        column@.name == maybe_text(column.name),
        column@.ordinal == column.ordinal,
        column@.type_text == column.type_text@,
        column@.nullable == column.nullable,
        key@.pk_catalog == maybe_text(key.pk_catalog),
        key@.pk_schema == maybe_text(key.pk_schema),
        key@.pk_table == maybe_text(key.pk_table),
        key@.pk_column == maybe_text(key.pk_column),
        key@.fk_column == maybe_text(key.fk_column),
        key@.fk_name == maybe_text(key.fk_name),
        key@.seq == key.seq,
        request@.kind == request.kind,
        request@.catalog == maybe_text(request.catalog),
        request@.schema == maybe_text(request.schema),
        request@.table == maybe_text(request.table),
        request@.types == request.types,
        edge@.name == maybe_text(edge.name),
        edge@.from == edge.from@,
        edge@.to == edge.to@,
        edge@.columns.len() == edge.columns@.len(),
        forall|i: int|
            0 <= i < edge.columns@.len() ==> #[trigger] edge@.columns[i] == (
                edge.columns@[i].0@,
                edge.columns@[i].1@,
            ),
        shown@.name == shown.name@,
        shown@.type_text == shown.type_text@,
        shown@.nullable == shown.nullable,
        shown@.primary_key == shown.primary_key,
        shown@.foreign_key == shown.foreign_key,
        table@.name == table.name@,
        table@.columns.len() == table.columns@.len(),
        forall|i: int|
            0 <= i < table.columns@.len() ==> #[trigger] table@.columns[i] == table.columns@[i]@,
        line@.name == maybe_text(line.name),
        line@.from == line.from,
        line@.to == line.to,
        line@.columns.len() == line.columns@.len(),
        forall|i: int|
            0 <= i < line.columns@.len() ==> #[trigger] line@.columns[i] == (
                line.columns@[i].0@,
                line.columns@[i].1@,
            ),
        layout@.catalog == maybe_text(layout.catalog),
        layout@.schema == maybe_text(layout.schema),
        layout@.tables == layout.tables@,
        layouts@.len() == layouts.scopes@.len(),
        forall|i: int|
            0 <= i < layouts.scopes@.len() ==> #[trigger] layouts@[i] == layouts.scopes@[i]@,
{
}

} // verus!
