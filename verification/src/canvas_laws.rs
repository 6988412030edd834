//! What drawing a query changes: tables put on the canvas and taken off it, joins,
//! columns picked, grouped and sorted by, and the rows and menus that show them.

use vstd::prelude::*;

use crate::builder_pane::{
    are_joined, canvas_menu, column_label, column_row, direction_label, direction_of,
    in_catalogue_order, join_row, kind_label, moved_columns, moved_joins, moved_order,
    place_of, plain_columns, preview_text, toggled_in, with_join, with_order, with_table,
    with_toggled, without_column, without_order, without_table, At, BuilderPane,
    BuilderText, CanvasCommand, ColumnRow, JoinRow, TableText,
};
use crate::builder_sql::{first_free_alias, BuilderTable, Join, JoinKind, SortDir};
use crate::context_menu::MenuText;
use crate::data_pane::ObjectTarget;
use crate::erd_pane::{column_key, ColumnItemText, ErdColumnText};
use crate::ordered::text_less;
use crate::sorting::{in_order, sorting_keeps_and_orders};
use crate::text::{decimal, maybe_text, texts};
use crate::view::{CaptionText, LabelText};

verus! {

/// A table that is put on the canvas stands behind the others, under its own name and
/// the alias it was given and with every column it has; its box carries the alias.
/// Nothing that was drawn before changes.
pub proof fn a_table_is_put_behind_the_others(
    pane: BuilderText,
    target: ObjectTarget,
    alias: Seq<char>,
    columns: Seq<ErdColumnText>,
)
    ensures
        ({
            let after = with_table(pane, target, alias, columns);
            let last = pane.tables.len() as int;
            &&& after.tables.len() == pane.tables.len() + 1
            &&& after.tables.take(last) == pane.tables
            &&& after.tables[last].catalog == maybe_text(target.catalog)
            &&& after.tables[last].schema == maybe_text(target.schema)
            &&& after.tables[last].name == target.name@
            &&& after.tables[last].alias == alias
            &&& after.tables[last].columns.len() == columns.len()
            &&& forall|i: int|
                0 <= i < columns.len() ==> #[trigger] after.tables[last].columns[i]
                    == columns[i].name
            &&& after.boxes.len() == pane.boxes.len() + 1
            &&& after.boxes.take(pane.boxes.len() as int) == pane.boxes
            &&& after.boxes.last().name == alias
            &&& after.boxes.last().columns == columns
            &&& after.joins == pane.joins
            &&& after.selected == pane.selected
            &&& after.conditions == pane.conditions
            &&& after.group_by == pane.group_by
            &&& after.order_by == pane.order_by
            &&& after.open_join == pane.open_join
            &&& after.open_order == pane.open_order
            &&& after.context_menu == pane.context_menu
        }),
{
    let after = with_table(pane, target, alias, columns);
    assert(after.tables.take(pane.tables.len() as int) =~= pane.tables);
    assert(after.boxes.take(pane.boxes.len() as int) =~= pane.boxes);
}

/// Where a column stands once a table before it may have gone.
pub open spec fn shifted(at: At, table: usize) -> At {
    if at.0 > table {
        ((at.0 - 1) as usize, at.1)
    } else {
        at
    }
}

/// The columns of other tables, in order and where they stand then.
pub open spec fn of_the_others(list: Seq<At>, table: usize) -> Seq<At> {
    list.filter(|at: At| at.0 != table).map_values(|at: At| shifted(at, table))
}

/// The sorts by columns of other tables, in order and where those stand then.
pub open spec fn sorts_of_the_others(list: Seq<(At, SortDir)>, table: usize) -> Seq<(At, SortDir)> {
    list.filter(|sort: (At, SortDir)| sort.0.0 != table).map_values(
        |sort: (At, SortDir)| (shifted(sort.0, table), sort.1),
    )
}

/// The joins between other tables, in order and where their ends stand then.
pub open spec fn joins_of_the_others(list: Seq<Join>, table: usize) -> Seq<Join> {
    list.filter(|edge: Join| edge.from.0 != table && edge.to.0 != table).map_values(
        |edge: Join|
            Join { from: shifted(edge.from, table), to: shifted(edge.to, table), kind: edge.kind },
    )
}

proof fn lemma_columns_moved(list: Seq<At>, table: usize)
    ensures
        moved_columns(list, table) == of_the_others(list, table),
    decreases list.len(),
{
    reveal(Seq::filter);
    if list.len() > 0 {
        lemma_columns_moved(list.drop_last(), table);
    }
    assert(moved_columns(list, table) =~= of_the_others(list, table));
}

proof fn lemma_sorts_moved(list: Seq<(At, SortDir)>, table: usize)
    ensures
        moved_order(list, table) == sorts_of_the_others(list, table),
    decreases list.len(),
{
    reveal(Seq::filter);
    if list.len() > 0 {
        lemma_sorts_moved(list.drop_last(), table);
    }
    assert(moved_order(list, table) =~= sorts_of_the_others(list, table));
}

proof fn lemma_joins_moved(list: Seq<Join>, table: usize)
    ensures
        moved_joins(list, table) == joins_of_the_others(list, table),
    decreases list.len(),
{
    reveal(Seq::filter);
    if list.len() > 0 {
        lemma_joins_moved(list.drop_last(), table);
    }
    assert(moved_joins(list, table) =~= joins_of_the_others(list, table));
}

/// A table that is taken off the canvas takes its box with it, the joins that end on it
/// and what was picked, grouped or sorted by of it. Everything of the other tables stays,
/// in its order, and the conditions stay as they were typed. There is nothing to take off
/// past the last table.
pub proof fn a_table_takes_what_was_its_own(pane: BuilderText, table: usize)
    requires
        pane.boxes.len() == pane.tables.len(),
    ensures
        table >= pane.tables.len() ==> without_table(pane, table) == pane,
        table < pane.tables.len() ==> {
            let after = without_table(pane, table);
            let at = table as int;
            &&& after.tables == pane.tables.take(at) + pane.tables.skip(at + 1)
            &&& after.boxes == pane.boxes.take(at) + pane.boxes.skip(at + 1)
            &&& after.selected == of_the_others(pane.selected, table)
            &&& after.group_by == of_the_others(pane.group_by, table)
            &&& after.order_by == sorts_of_the_others(pane.order_by, table)
            &&& after.joins == joins_of_the_others(pane.joins, table)
            &&& after.conditions == pane.conditions
            &&& after.context_menu == pane.context_menu
            &&& after.open_join is None
            &&& after.open_order is None
        },
{
    if table < pane.tables.len() {
        let at = table as int;
        assert(pane.tables.remove(at) =~= pane.tables.take(at) + pane.tables.skip(at + 1));
        assert(pane.boxes.remove(at) =~= pane.boxes.take(at) + pane.boxes.skip(at + 1));
        lemma_columns_moved(pane.selected, table);
        lemma_columns_moved(pane.group_by, table);
        lemma_sorts_moved(pane.order_by, table);
        lemma_joins_moved(pane.joins, table);
    }
}

/// Two columns that are not joined yet, in either direction, get an inner join behind the
/// others; two that are stay joined as they were.
pub proof fn two_columns_are_joined_once(pane: BuilderText, from: At, to: At)
    ensures
        ({
            let after = with_join(pane, from, to);
            let there = exists|i: int|
                0 <= i < pane.joins.len() && (((#[trigger] pane.joins[i]).from == from
                    && pane.joins[i].to == to) || (pane.joins[i].from == to && pane.joins[i].to
                    == from));
            &&& there ==> after == pane
            &&& !there ==> {
                &&& after.joins.len() == pane.joins.len() + 1
                &&& after.joins.drop_last() == pane.joins
                &&& after.joins.last().from == from
                &&& after.joins.last().to == to
                &&& after.joins.last().kind is Inner
                &&& after == (BuilderText { joins: after.joins, ..pane })
            }
        }),
{
    let after = with_join(pane, from, to);
    if are_joined(pane.joins, from, to) {
        let i = choose|i: int|
            0 <= i < pane.joins.len() && crate::builder_pane::relates(
                #[trigger] pane.joins[i],
                from,
                to,
            );
        assert(crate::builder_pane::relates(pane.joins[i], from, to));
    } else {
        assert(after.joins.drop_last() =~= pane.joins);
        assert forall|i: int| 0 <= i < pane.joins.len() implies !((
        (#[trigger] pane.joins[i]).from == from && pane.joins[i].to == to) || (pane.joins[i].from
            == to && pane.joins[i].to == from)) by {
            assert(!crate::builder_pane::relates(pane.joins[i], from, to));
        }
    }
}

proof fn lemma_column_dropped(list: Seq<At>, at: At)
    ensures
        without_column(list, at) == list.filter(|other: At| other != at),
    decreases list.len(),
{
    reveal(Seq::filter);
    if list.len() > 0 {
        lemma_column_dropped(list.drop_last(), at);
    }
}

proof fn lemma_order_dropped(list: Seq<(At, SortDir)>, at: At)
    ensures
        without_order(list, at) == list.filter(|sort: (At, SortDir)| sort.0 != at),
    decreases list.len(),
{
    reveal(Seq::filter);
    if list.len() > 0 {
        lemma_order_dropped(list.drop_last(), at);
    }
}

/// A column that is in a list leaves it, and one that is not goes behind the others.
pub proof fn a_column_goes_in_or_out(list: Seq<At>, at: At, place: int)
    ensures
        !list.contains(at) ==> toggled_in(list, at) == list + seq![at],
        0 <= place < list.len() && list[place] == at && (forall|k: int|
            0 <= k < place ==> #[trigger] list[k] != at) ==> toggled_in(list, at) == list.take(
            place,
        ) + list.skip(place + 1),
{
    if !list.contains(at) {
        assert(toggled_in(list, at) =~= list + seq![at]);
    }
    if 0 <= place < list.len() && list[place] == at && (forall|k: int|
        0 <= k < place ==> #[trigger] list[k] != at) {
        let found = place_of(list, at);
        assert(0 <= found < list.len() && list[found] == at && forall|k: int|
            0 <= k < found ==> #[trigger] list[k] != at);
        assert(found == place);
        assert(toggled_in(list, at) =~= list.take(place) + list.skip(place + 1));
    }
}

/// A column that is picked goes behind the others; one that is let go is neither grouped
/// nor sorted by any longer. Nothing of any other column changes.
pub proof fn a_column_is_picked_or_let_go(pane: BuilderText, at: At)
    ensures
        ({
            let after = with_toggled(pane, at);
            &&& after.selected == toggled_in(pane.selected, at)
            &&& !pane.selected.contains(at) ==> after == (BuilderText {
                selected: after.selected,
                ..pane
            })
            &&& pane.selected.contains(at) ==> {
                &&& after.group_by == pane.group_by.filter(|other: At| other != at)
                &&& after.order_by == pane.order_by.filter(|sort: (At, SortDir)| sort.0 != at)
                &&& after.open_order is None
                &&& after.tables == pane.tables
                &&& after.boxes == pane.boxes
                &&& after.joins == pane.joins
                &&& after.conditions == pane.conditions
                &&& after.open_join == pane.open_join
                &&& after.context_menu == pane.context_menu
            }
        }),
{
    lemma_column_dropped(pane.group_by, at);
    lemma_order_dropped(pane.order_by, at);
}

/// A column that is sorted by goes behind the others that are, in its new direction; with
/// no direction it is sorted by no longer. Nothing else changes.
pub proof fn the_last_order_goes_last(pane: BuilderText, at: At, direction: Option<SortDir>)
    ensures
        ({
            let after = with_order(pane, at, direction);
            let others = pane.order_by.filter(|sort: (At, SortDir)| sort.0 != at);
            &&& direction is None ==> after.order_by == others
            &&& direction matches Some(way) ==> after.order_by == others + seq![(at, way)]
            &&& after == (BuilderText { order_by: after.order_by, ..pane })
        }),
{
    lemma_order_dropped(pane.order_by, at);
    if let Some(way) = direction {
        let others = pane.order_by.filter(|sort: (At, SortDir)| sort.0 != at);
        assert(others.push((at, way)) =~= others + seq![(at, way)]);
    }
}

/// A column is called by its table's alias and its own name, by the alias alone where
/// there is no such column, and by a mark where there is no such table.
pub proof fn a_column_is_called_by_its_alias(tables: Seq<TableText>, at: At)
    ensures
        at.0 >= tables.len() ==> column_label(tables, at) == "?"@,
        at.0 < tables.len() && at.1 < tables[at.0 as int].columns.len() ==> column_label(tables, at)
            == tables[at.0 as int].alias + "."@ + tables[at.0 as int].columns[at.1 as int],
        at.0 < tables.len() && at.1 >= tables[at.0 as int].columns.len() ==> column_label(
            tables,
            at,
        ) == tables[at.0 as int].alias,
{
}

/// A sort is by the first entry of its column.
proof fn lemma_direction(list: Seq<(At, SortDir)>, at: At)
    ensures
        match direction_of(list, at) {
            Some(way) => list.contains((at, way)),
            None => forall|i: int| 0 <= i < list.len() ==> (#[trigger] list[i]).0 != at,
        },
    decreases list.len(),
{
    if list.len() > 0 {
        let fewer = list.drop_last();
        lemma_direction(fewer, at);
        match direction_of(fewer, at) {
            Some(way) => {
                let i = choose|i: int| 0 <= i < fewer.len() && fewer[i] == (at, way);
                assert(list[i] == (at, way));
            },
            None => {
                assert forall|i: int| 0 <= i < fewer.len() implies (#[trigger] list[i]).0 != at by {
                    assert(fewer[i].0 != at);
                }
                if list.last().0 == at {
                    assert(list[list.len() - 1] == (at, list.last().1));
                }
            },
        }
    }
}

/// A row of the joins says which columns are joined, in the order they were drawn in, and
/// how; a row of the columns says which it is, whether it is grouped by and in which
/// direction it is sorted by. Each says whether its list is open.
pub proof fn a_row_says_what_was_drawn(pane: BuilderText, index: int)
    ensures
        0 <= index < pane.joins.len() ==> {
            let row = join_row(pane, index);
            let edge = pane.joins[index];
            &&& row.label == column_label(pane.tables, edge.from) + " = "@ + column_label(
                pane.tables,
                edge.to,
            )
            &&& row.kind == match edge.kind {
                JoinKind::Inner => "builder.join_inner",
                JoinKind::Left => "builder.join_left",
                JoinKind::Right => "builder.join_right",
                JoinKind::Full => "builder.join_full",
            }
            &&& row.kind == kind_label(edge.kind)
            &&& row.open <==> (pane.open_join matches Some(open) && open == index)
        },
        0 <= index < pane.selected.len() ==> {
            let row = column_row(pane, index);
            let at = pane.selected[index];
            &&& row.at == at
            &&& row.label == column_label(pane.tables, at)
            &&& row.grouped <==> exists|i: int|
                0 <= i < pane.group_by.len() && #[trigger] pane.group_by[i] == at
            &&& row.open <==> (pane.open_order matches Some(open) && open == index)
            &&& row.sorted == "builder.order_none" || row.sorted == "builder.order_asc"
                || row.sorted == "builder.order_desc"
            &&& (forall|i: int| 0 <= i < pane.order_by.len() ==> (#[trigger] pane.order_by[i]).0 != at)
                ==> row.sorted == direction_label(None)
            &&& (forall|i: int, j: int|
                0 <= i < j < pane.order_by.len() ==> (#[trigger] pane.order_by[i]).0 != (
                #[trigger] pane.order_by[j]).0) ==> forall|i: int|
                0 <= i < pane.order_by.len() && (#[trigger] pane.order_by[i]).0 == at ==> row.sorted
                    == direction_label(Some(pane.order_by[i].1))
        },
{
    if 0 <= index < pane.selected.len() {
        let at = pane.selected[index];
        lemma_direction(pane.order_by, at);
        if pane.group_by.contains(at) {
            let i = choose|i: int| 0 <= i < pane.group_by.len() && pane.group_by[i] == at;
            assert(pane.group_by[i] == at);
        }
        if let Some(way) = direction_of(pane.order_by, at) {
            let i = choose|i: int| 0 <= i < pane.order_by.len() && pane.order_by[i] == (at, way);
            assert(pane.order_by[i].0 == at);
        }
    }
}

/// A direction is called by its name, and none by none; a join by its kind.
pub proof fn a_direction_is_called_by_its_name(kind: JoinKind, way: SortDir)
    ensures
        direction_label(None) == "builder.order_none",
        direction_label(Some(way)) == match way {
            SortDir::Asc => "builder.order_asc",
            SortDir::Desc => "builder.order_desc",
        },
        kind_label(kind) == match kind {
            JoinKind::Inner => "builder.join_inner",
            JoinKind::Left => "builder.join_left",
            JoinKind::Right => "builder.join_right",
            JoinKind::Full => "builder.join_full",
        },
{
}

/// A command of the canvas.
pub open spec fn drawn(key: &'static str, command: CanvasCommand) -> MenuText<CanvasCommand> {
    MenuText::Command {
        label: LabelText { key, args: Seq::empty() },
        enabled: true,
        checked: false,
        shortcut: None,
        command,
    }
}

/// The menu of the canvas ends in the three commands that zoom. Over a table it begins
/// with taking that table off, and over one of its columns it goes on with picking that
/// column, or letting it go where it is picked.
pub proof fn the_menu_of_the_canvas(selected: Seq<At>, table: usize, column: usize)
    ensures
        ({
            let zooms = seq![
                drawn("context.zoom_in", CanvasCommand::ZoomIn),
                drawn("context.zoom_out", CanvasCommand::ZoomOut),
                drawn("context.zoom_reset", CanvasCommand::ZoomReset),
            ];
            let off = drawn("context.remove_table", CanvasCommand::RemoveTable(table));
            &&& canvas_menu(selected, None) == zooms
            &&& canvas_menu(selected, Some((table, None))) == seq![off, MenuText::Separator] + zooms
            &&& canvas_menu(selected, Some((table, Some(column)))) == seq![
                off,
                drawn(
                    if selected.contains((table, column)) {
                        "context.clear_column"
                    } else {
                        "context.select_column"
                    },
                    CanvasCommand::ToggleColumn(table, column),
                ),
                MenuText::Separator,
            ] + zooms
        }),
{
}

/// The columns of a table are those with a name, in the order of the catalogue. On the
/// canvas nothing is said of their keys.
pub proof fn a_named_column_is_on_the_canvas(items: Seq<ColumnItemText>)
    ensures
        plain_columns(items) == items.filter(
            |item: ColumnItemText| item.name is Some,
        ).map_values(
            |item: ColumnItemText|
                ErdColumnText {
                    name: item.name.unwrap(),
                    type_text: item.type_text,
                    nullable: true,
                    primary_key: false,
                    foreign_key: false,
                },
        ),
    decreases items.len(),
{
    reveal(Seq::filter);
    if items.len() > 0 {
        a_named_column_is_on_the_canvas(items.drop_last());
    }
    assert(plain_columns(items) =~= items.filter(
        |item: ColumnItemText| item.name is Some,
    ).map_values(
        |item: ColumnItemText|
            ErdColumnText {
                name: item.name.unwrap(),
                type_text: item.type_text,
                nullable: true,
                primary_key: false,
                foreign_key: false,
            },
    ));
}

/// Putting columns into the order of the catalogue loses none and adds none. They are
/// ordered by their place, those without one last, and by name where places are the same.
pub proof fn the_order_of_the_catalogue(items: Seq<ColumnItemText>)
    ensures
        in_catalogue_order(items).to_multiset() == items.to_multiset(),
        forall|i: int, j: int|
            0 <= i < j < in_catalogue_order(items).len() ==> {
                let a = #[trigger] in_catalogue_order(items)[i];
                let b = #[trigger] in_catalogue_order(items)[j];
                &&& a.ordinal is None ==> b.ordinal is None || b.ordinal.unwrap() == i64::MAX
                &&& a.ordinal is Some && b.ordinal is Some ==> a.ordinal.unwrap()
                    <= b.ordinal.unwrap()
                &&& a.ordinal == b.ordinal && a.name is Some && b.name is Some ==> !text_less(
                    b.name.unwrap(),
                    a.name.unwrap(),
                )
            },
{
    let key = |c: ColumnItemText| column_key(c);
    sorting_keeps_and_orders(items, key);
    let sorted = in_order(items, key);
    assert(in_catalogue_order(items) =~= sorted);
    assert forall|i: int, j: int| 0 <= i < j < sorted.len() implies {
        let a = #[trigger] sorted[i];
        let b = #[trigger] sorted[j];
        column_key(a).number <= column_key(b).number && (column_key(a).number == column_key(b).number
            && a.name is Some && b.name is Some ==> !text_less(b.name.unwrap(), a.name.unwrap()))
    } by {
        assert(!crate::sorting::key_less(key(sorted[j]), key(sorted[i])));
    }
}

/// What is shown of a statement is the statement, and a sentence of the interface where
/// there is none.
pub proof fn a_statement_is_shown_as_it_is(sql: Seq<char>)
    ensures
        sql.len() > 0 ==> preview_text(sql) == CaptionText::Text(sql),
        sql.len() == 0 ==> preview_text(sql) == CaptionText::Key("builder.no_sql"),
{
}

/// A name for the `n`th table of one name.
pub open spec fn counted(name: Seq<char>, n: nat) -> Seq<char> {
    if n == 1 {
        name
    } else {
        name + "_"@ + decimal(n)
    }
}

/// A table keeps its own name as its alias where that is free, and else carries the first
/// number that is, counting from two.
pub proof fn an_alias_is_free(name: Seq<char>, taken: Seq<Seq<char>>, alias: Seq<char>)
    requires
        first_free_alias(name, taken, alias),
    ensures
        !taken.contains(alias),
        !taken.contains(name) ==> alias == name,
        exists|n: nat|
            1 <= n && alias == #[trigger] counted(name, n) && forall|k: nat|
                1 <= k < n ==> taken.contains(#[trigger] counted(name, k)),
{
    let n = choose|n: nat|
        1 <= n && alias == #[trigger] crate::builder_sql::alias_candidate(name, n)
            && !taken.contains(alias) && forall|k: nat|
            1 <= k < n ==> taken.contains(#[trigger] crate::builder_sql::alias_candidate(name, k));
    assert(alias == counted(name, n));
    assert forall|k: nat| 1 <= k < n implies taken.contains(#[trigger] counted(name, k)) by {
        assert(taken.contains(crate::builder_sql::alias_candidate(name, k)));
    }
    if n > 1 {
        assert(taken.contains(crate::builder_sql::alias_candidate(name, 1)));
    }
}

/// A query, its tables and its rows read as what they hold.
pub proof fn a_query_reads_as_it_is(
    pane: BuilderPane,
    table: BuilderTable,
    join_row: JoinRow,
    column_row: ColumnRow,
)
    ensures
        pane@.tables.len() == pane.query.tables@.len(),
        forall|i: int|
            0 <= i < pane@.tables.len() ==> #[trigger] pane@.tables[i] == pane.query.tables@[i]@,
        pane@.joins == pane.query.joins@,
        pane@.selected == pane.query.selected@,
        pane@.conditions == texts(pane.query.where_clauses@),
        pane@.group_by == pane.query.group_by@,
        pane@.order_by == pane.query.order_by@,
        pane@.boxes.len() == pane.boxes@.len(),
        forall|i: int| 0 <= i < pane@.boxes.len() ==> #[trigger] pane@.boxes[i] == pane.boxes@[i]@,
        pane@.open_join == pane.open_join,
        pane@.open_order == pane.open_order,
        pane@.context_menu == pane.context_menu,
        table@.catalog == maybe_text(table.catalog),
        table@.schema == maybe_text(table.schema),
        table@.name == table.name@,
        table@.alias == table.alias@,
        table@.columns == texts(table.columns@),
        join_row@.label == join_row.label@,
        join_row@.kind == join_row.kind,
        join_row@.open == join_row.open,
        column_row@.at == column_row.at,
        column_row@.label == column_row.label@,
        column_row@.grouped == column_row.grouped,
        column_row@.sorted == column_row.sorted,
        column_row@.open == column_row.open,
{
}

} // verus!
