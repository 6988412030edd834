//! Lists and values that may be absent read entry by entry as what they hold.

use vstd::prelude::*;

use crate::builder_pane::{box_texts, table_texts};
use crate::builder_sql::BuilderTable;
use crate::connection_dialog::{maybe_status, Status};
use crate::connection_form::{maybe_driver, text_or_empty};
use crate::connection_view::reset_button;
use crate::context_menu::{menu_texts, MenuRow};
use crate::data_edit::{
    ascending, cell_map, cells_differ, inserted_cells, no_edits, ChangedCell, EditableSource,
    StagedCell, StagedText,
};
use crate::data_pane::is_first_field;
use crate::driver_manager::{maybe_label, maybe_probe, Probe};
use crate::erd_pane::{
    column_items, column_pairs, edge_texts, erd_columns, erd_relations, imported_texts,
    maybe_texts, request_texts, ColumnItem, DescribeRequest, Edge, ErdColumn, ErdRelation, ErdTable,
    ImportedKey,
};
use crate::ordered::{less_irreflexive, less_total, less_transitive, order_of, text_less, Order};
use crate::profile::{
    blank_tunnel, maybe_keep_alive, maybe_tunnel, usual_keep_alive, ConnectionProfile, DriverDef,
    KeepAlive, TunnelConfig,
};
use crate::profile_list::{profile_texts, row_texts, ProfileRow};
use crate::sorting::{key_texts, SortKey};
use crate::template::{fillings, hole_texts, Hole};
use crate::text::maybe_text;
use crate::view::{ButtonVariant, Label};

verus! {

/// A list reads entry by entry, in its own order, and loses none.
pub proof fn a_list_of_rows_reads_row_by_row<C>(
    tables: Seq<BuilderTable>,
    boxes: Seq<ErdTable>,
    rows: Seq<MenuRow<C>>,
    profiles: Seq<ConnectionProfile>,
    listed: Seq<ProfileRow>,
    keys: Seq<SortKey>,
    holes: Seq<Hole>,
    pairs: Seq<(String, String)>,
    i: int,
)
    ensures
        table_texts(tables).len() == tables.len(),
        0 <= i < tables.len() ==> table_texts(tables)[i] == tables[i]@,
        box_texts(boxes).len() == boxes.len(),
        0 <= i < boxes.len() ==> box_texts(boxes)[i] == boxes[i]@,
        menu_texts(rows).len() == rows.len(),
        0 <= i < rows.len() ==> menu_texts(rows)[i] == rows[i]@,
        profile_texts(profiles).len() == profiles.len(),
        0 <= i < profiles.len() ==> profile_texts(profiles)[i] == profiles[i]@,
        row_texts(listed).len() == listed.len(),
        0 <= i < listed.len() ==> row_texts(listed)[i] == listed[i]@,
        key_texts(keys).len() == keys.len(),
        0 <= i < keys.len() ==> key_texts(keys)[i] == keys[i]@,
        hole_texts(holes).len() == holes.len(),
        0 <= i < holes.len() ==> hole_texts(holes)[i] == holes[i]@,
        0 <= i < holes.len() ==> hole_texts(holes)[i].before == holes[i].before@
            && hole_texts(holes)[i].name == holes[i].name@,
        fillings(pairs).len() == pairs.len(),
        0 <= i < pairs.len() ==> fillings(pairs)[i] == (pairs[i].0@, pairs[i].1@),
{
}

/// What a catalogue reported, and what is drawn of it, reads entry by entry.
pub proof fn a_report_reads_entry_by_entry(
    columns: Seq<ColumnItem>,
    keys: Seq<ImportedKey>,
    names: Seq<Option<String>>,
    requests: Seq<DescribeRequest>,
    edges: Seq<Edge>,
    shown: Seq<ErdColumn>,
    lines: Seq<ErdRelation>,
    pairs: Seq<(String, String)>,
    i: int,
)
    ensures
        column_items(columns).len() == columns.len(),
        0 <= i < columns.len() ==> column_items(columns)[i] == columns[i]@,
        imported_texts(keys).len() == keys.len(),
        0 <= i < keys.len() ==> imported_texts(keys)[i] == keys[i]@,
        maybe_texts(names).len() == names.len(),
        0 <= i < names.len() ==> maybe_texts(names)[i] == maybe_text(names[i]),
        request_texts(requests).len() == requests.len(),
        0 <= i < requests.len() ==> request_texts(requests)[i] == requests[i]@,
        edge_texts(edges).len() == edges.len(),
        0 <= i < edges.len() ==> edge_texts(edges)[i] == edges[i]@,
        erd_columns(shown).len() == shown.len(),
        0 <= i < shown.len() ==> erd_columns(shown)[i] == shown[i]@,
        erd_relations(lines).len() == lines.len(),
        0 <= i < lines.len() ==> erd_relations(lines)[i] == lines[i]@,
        column_pairs(pairs).len() == pairs.len(),
        0 <= i < pairs.len() ==> column_pairs(pairs)[i] == (pairs[i].0@, pairs[i].1@),
{
}

/// What may be absent reads as what is there, and as nothing where nothing is.
pub proof fn what_is_there_reads_as_it_is(
    status: Status,
    driver: &DriverDef,
    text: Seq<char>,
    probe: Probe,
    label: Label,
    keep: KeepAlive,
    tunnel: TunnelConfig,
)
    ensures
        maybe_status(Some(status)) == Some(status@) && maybe_status(None) is None,
        maybe_driver(Some(driver)) == Some(driver@) && maybe_driver(None) is None,
        text_or_empty(Some(text)) == text && text_or_empty(None).len() == 0,
        maybe_probe(Some(probe)) == Some(probe@) && maybe_probe(None) is None,
        maybe_label(Some(label)) == Some(label@) && maybe_label(None) is None,
        maybe_keep_alive(Some(keep)) == Some(keep@) && maybe_keep_alive(None) is None,
        maybe_tunnel(Some(tunnel)) == Some(tunnel@) && maybe_tunnel(None) is None,
        usual_keep_alive().interval_s == 300,
        usual_keep_alive().query == "select 1"@,
        blank_tunnel().host.len() == 0,
        blank_tunnel().port == 22,
        blank_tunnel().username.len() == 0,
        blank_tunnel().auth is Agent,
        blank_tunnel().remote_host.len() == 0,
        blank_tunnel().remote_port == 0,
        blank_tunnel().local_port == 0,
{
}

/// The changed cells of a list are those it has an entry for, each with the value of its
/// entry; no two entries are about one cell, and none holds nothing.
pub proof fn a_changed_cell_has_one_entry(entries: Seq<ChangedCell>, i: int, cell: (usize, usize))
    requires
        cells_differ(entries),
    ensures
        cell_map(entries).dom().contains(cell) <==> exists|k: int|
            0 <= k < entries.len() && (#[trigger] entries[k]).row == cell.0 && entries[k].column
                == cell.1,
        0 <= i < entries.len() ==> cell_map(entries)[(entries[i].row, entries[i].column)]
            == entries[i].value@ && !(entries[i].value@ is Unset),
        forall|a: int, b: int|
            0 <= a < b < entries.len() ==> (#[trigger] entries[a]).row != (#[trigger] entries[b]).row
                || entries[a].column != entries[b].column,
{
    if exists|k: int|
        0 <= k < entries.len() && (#[trigger] entries[k]).row == cell.0 && entries[k].column
            == cell.1 {
        let k = choose|k: int|
            0 <= k < entries.len() && (#[trigger] entries[k]).row == cell.0 && entries[k].column
                == cell.1;
        assert(crate::data_edit::is_about(entries[k], cell));
    }
    if cell_map(entries).dom().contains(cell) {
        let k = choose|k: int|
            0 <= k < entries.len() && crate::data_edit::is_about(#[trigger] entries[k], cell);
        assert(entries[k].row == cell.0);
    }
    if 0 <= i < entries.len() {
        let own = (entries[i].row, entries[i].column);
        assert(crate::data_edit::is_about(entries[i], own));
        let k = choose|k: int|
            0 <= k < entries.len() && crate::data_edit::is_about(#[trigger] entries[k], own);
        assert(crate::data_edit::is_about(entries[k], own));
        assert(k == i);
    }
    assert forall|a: int, b: int| 0 <= a < b < entries.len() implies (#[trigger] entries[a]).row != (
    #[trigger] entries[b]).row || entries[a].column != entries[b].column by {
        assert(!crate::data_edit::is_about(entries[a], (entries[b].row, entries[b].column)));
    }
}

/// New rows read cell by cell, marked rows stand in order and each once, and with nothing
/// staged there is neither a changed cell, nor a marked row, nor a new one.
pub proof fn staged_rows_read_cell_by_cell(
    rows: Seq<Vec<StagedCell>>,
    row: int,
    column: int,
    marked: Seq<usize>,
)
    ensures
        inserted_cells(rows).len() == rows.len(),
        0 <= row < rows.len() ==> inserted_cells(rows)[row].len() == rows[row]@.len(),
        0 <= row < rows.len() && 0 <= column < rows[row]@.len() ==> inserted_cells(
            rows,
        )[row][column] == rows[row]@[column]@,
        ascending(marked) <==> forall|i: int, j: int|
            0 <= i < j < marked.len() ==> marked[i] < marked[j],
        no_edits().changed.dom() == Set::<(usize, usize)>::empty(),
        no_edits().deleted == Set::<usize>::empty(),
        no_edits().inserted == Seq::<Seq<StagedText>>::empty(),
{
    assert(no_edits().changed.dom() =~= Set::<(usize, usize)>::empty());
}

/// The first field of a new row is the leftmost column that takes a value and is shown.
pub proof fn the_first_field_is_the_leftmost(
    source: EditableSource,
    hidden: Seq<usize>,
    field: Option<usize>,
    other: usize,
)
    requires
        is_first_field(source, hidden, field),
        other < source.base.columns@.len(),
        source.writable,
        other < source.columns@.len(),
        source.columns@[other as int].writable,
        !hidden.contains(other),
    ensures
        field matches Some(column) && column <= other && source.columns@[column as int].writable
            && !hidden.contains(column),
{
    assert(crate::data_pane::takes_field(source, hidden, other as int));
    if let Some(column) = field {
        if other < column {
            assert(!crate::data_pane::takes_field(source, hidden, other as int));
        }
    }
}

/// Two texts are the same, or one comes before the other.
pub proof fn two_texts_are_in_order(a: Seq<char>, b: Seq<char>)
    ensures
        order_of(a, b) == Order::Same <==> a == b,
        order_of(a, b) == Order::Before <==> text_less(a, b),
        order_of(a, b) == Order::After <==> text_less(b, a),
{
    less_irreflexive(a);
    less_total(a, b);
    if text_less(a, b) && text_less(b, a) {
        less_transitive(a, b, a);
    }
}

/// The button that gives a URL back to its parts.
pub proof fn a_url_is_given_back_by_its_button()
    ensures
        reset_button().id == "connect-url-reset",
        reset_button().label == "connect.url_reset",
        reset_button().variant == ButtonVariant::Secondary,
        reset_button().enabled,
        reset_button().tab is None,
{
}

} // verus!
