//! The query builder panel: the tables on its canvas, the form under it, and the
//! statement the two of them describe.
//!
//! The panel owns the query and draws nothing. Every part of the query is written
//! in pairs of a table's place and a column's place in it, so whatever moves the
//! tables moves the pairs with them.

use vstd::prelude::*;

use crate::builder_sql::{
    first_free_alias, generate, spells, statement, unique_alias, BuilderQuery, BuilderTable, Join,
    JoinKind, SortDir, SpelledTable,
};
use crate::context_menu::{menu_row, menu_texts, push_row, push_separator, MenuRow, MenuText};
use crate::data_pane::ObjectTarget;
use crate::erd_pane::{
    column_items, column_key, copy_part, erd_columns, ColumnItem, ColumnItemText,
    ConnectionId, DescribeKind, DescribeRequest, ErdColumn, ErdColumnText, ErdTable, ErdTableText,
};
use crate::sorting::{key_texts, places, sort_places, stable_order, SortKey};
use crate::text::{maybe_text, texts};
use crate::view::{plain, Caption, CaptionText, Label};

verus! {

/// A column: the place of its table, and its own place in it.
pub type At = (usize, usize);

/// A table on the canvas.
#[verifier::ext_equal]
pub ghost struct TableText {
    pub catalog: Option<Seq<char>>,
    pub schema: Option<Seq<char>>,
    pub name: Seq<char>,
    pub alias: Seq<char>,
    pub columns: Seq<Seq<char>>,
}

impl View for BuilderTable {
    type V = TableText;

    open spec fn view(&self) -> TableText {
        TableText {
            catalog: maybe_text(self.catalog),
            schema: maybe_text(self.schema),
            name: self.name@,
            alias: self.alias@,
            columns: texts(self.columns@),
        }
    }
}

/// What was under the pointer when a menu was asked for: a table, and one of its
/// columns where there was one.
#[derive(Clone, Copy, Debug, PartialEq, Eq)]
pub struct CanvasMenu {
    pub hit: Option<(usize, Option<usize>)>,
}

/// The panel.
pub struct BuilderPane {
    /// Which connection the tables come from.
    pub connection: ConnectionId,
    pub query: BuilderQuery,
    /// The tables as the canvas draws them, by alias.
    pub boxes: Vec<ErdTable>,
    /// Which join's list of types is open.
    pub open_join: Option<usize>,
    /// Which column's list of directions is open.
    pub open_order: Option<usize>,
    pub context_menu: Option<CanvasMenu>,
}

/// The panel.
#[verifier::ext_equal]
pub ghost struct BuilderText {
    pub tables: Seq<TableText>,
    pub joins: Seq<Join>,
    pub selected: Seq<At>,
    pub conditions: Seq<Seq<char>>,
    pub group_by: Seq<At>,
    pub order_by: Seq<(At, SortDir)>,
    pub boxes: Seq<ErdTableText>,
    pub open_join: Option<usize>,
    pub open_order: Option<usize>,
    pub context_menu: Option<CanvasMenu>,
}

/// The tables of a list.
pub open spec fn table_texts(list: Seq<BuilderTable>) -> Seq<TableText> {
    list.map_values(|t: BuilderTable| t@)
}

/// The boxes of a list.
pub open spec fn box_texts(list: Seq<ErdTable>) -> Seq<ErdTableText> {
    list.map_values(|t: ErdTable| t@)
}

impl View for BuilderPane {
    type V = BuilderText;

    open spec fn view(&self) -> BuilderText {
        BuilderText {
            tables: table_texts(self.query.tables@),
            joins: self.query.joins@,
            selected: self.query.selected@,
            conditions: texts(self.query.where_clauses@),
            group_by: self.query.group_by@,
            order_by: self.query.order_by@,
            boxes: box_texts(self.boxes@),
            open_join: self.open_join,
            open_order: self.open_order,
            context_menu: self.context_menu,
        }
    }
}

/// The aliases that are taken.
pub open spec fn aliases(tables: Seq<TableText>) -> Seq<Seq<char>> {
    tables.map_values(|t: TableText| t.alias)
}

/// A table that is put on the canvas.
pub open spec fn added_table(
    target: ObjectTarget,
    alias: Seq<char>,
    columns: Seq<ErdColumnText>,
) -> TableText {
    TableText {
        catalog: maybe_text(target.catalog),
        schema: maybe_text(target.schema),
        name: target.name@,
        alias,
        columns: columns.map_values(|c: ErdColumnText| c.name),
    }
}

/// The panel with a table put on its canvas.
pub open spec fn with_table(
    pane: BuilderText,
    target: ObjectTarget,
    alias: Seq<char>,
    columns: Seq<ErdColumnText>,
) -> BuilderText {
    BuilderText {
        tables: pane.tables.push(added_table(target, alias, columns)),
        boxes: pane.boxes.push(ErdTableText { name: alias, columns }),
        ..pane
    }
}

/// Where a column stands once a table is gone: nowhere where it was that table's,
/// and a table further down where it stood above it.
pub open spec fn moved(at: At, table: usize) -> Option<At> {
    if at.0 == table {
        None
    } else if at.0 > table {
        Some(((at.0 - 1) as usize, at.1))
    } else {
        Some(at)
    }
}

/// The columns of a list once a table is gone.
pub open spec fn moved_columns(list: Seq<At>, table: usize) -> Seq<At>
    decreases list.len(),
{
    if list.len() == 0 {
        Seq::empty()
    } else {
        let earlier = moved_columns(list.drop_last(), table);
        match moved(list.last(), table) {
            Some(at) => earlier.push(at),
            None => earlier,
        }
    }
}

/// The joins once a table is gone.
pub open spec fn moved_joins(list: Seq<Join>, table: usize) -> Seq<Join>
    decreases list.len(),
{
    if list.len() == 0 {
        Seq::empty()
    } else {
        let earlier = moved_joins(list.drop_last(), table);
        match (moved(list.last().from, table), moved(list.last().to, table)) {
            (Some(from), Some(to)) => earlier.push(Join { from, to, kind: list.last().kind }),
            _ => earlier,
        }
    }
}

/// The sorted columns once a table is gone.
pub open spec fn moved_order(list: Seq<(At, SortDir)>, table: usize) -> Seq<(At, SortDir)>
    decreases list.len(),
{
    if list.len() == 0 {
        Seq::empty()
    } else {
        let earlier = moved_order(list.drop_last(), table);
        match moved(list.last().0, table) {
            Some(at) => earlier.push((at, list.last().1)),
            None => earlier,
        }
    }
}

/// The panel with a table taken off its canvas, and everything that named it. The
/// conditions are the user's own words, and are left alone.
pub open spec fn without_table(pane: BuilderText, table: usize) -> BuilderText {
    if table >= pane.tables.len() {
        pane
    } else {
        BuilderText {
            tables: pane.tables.remove(table as int),
            boxes: pane.boxes.remove(table as int),
            joins: moved_joins(pane.joins, table),
            selected: moved_columns(pane.selected, table),
            group_by: moved_columns(pane.group_by, table),
            order_by: moved_order(pane.order_by, table),
            open_join: None,
            open_order: None,
            ..pane
        }
    }
}

/// Whether a join relates two columns, in either direction.
pub open spec fn relates(join: Join, from: At, to: At) -> bool {
    (join.from == from && join.to == to) || (join.from == to && join.to == from)
}

/// Whether two columns are joined.
pub open spec fn are_joined(joins: Seq<Join>, from: At, to: At) -> bool {
    exists|i: int| 0 <= i < joins.len() && relates(#[trigger] joins[i], from, to)
}

/// The panel with two columns joined.
pub open spec fn with_join(pane: BuilderText, from: At, to: At) -> BuilderText {
    if are_joined(pane.joins, from, to) {
        pane
    } else {
        BuilderText { joins: pane.joins.push(Join { from, to, kind: JoinKind::Inner }), ..pane }
    }
}

/// A list of columns without one of them.
pub open spec fn without_column(list: Seq<At>, at: At) -> Seq<At>
    decreases list.len(),
{
    if list.len() == 0 {
        Seq::empty()
    } else {
        let earlier = without_column(list.drop_last(), at);
        if list.last() == at {
            earlier
        } else {
            earlier.push(list.last())
        }
    }
}

/// A list of sorted columns without one of them.
pub open spec fn without_order(list: Seq<(At, SortDir)>, at: At) -> Seq<(At, SortDir)>
    decreases list.len(),
{
    if list.len() == 0 {
        Seq::empty()
    } else {
        let earlier = without_order(list.drop_last(), at);
        if list.last().0 == at {
            earlier
        } else {
            earlier.push(list.last())
        }
    }
}

/// Where a column first stands in a list.
pub open spec fn place_of(list: Seq<At>, at: At) -> int {
    choose|i: int|
        0 <= i < list.len() && list[i] == at && forall|k: int| 0 <= k < i ==> #[trigger] list[k]
            != at
}

/// A list of columns with one of them put in, or taken out where it was there.
pub open spec fn toggled_in(list: Seq<At>, at: At) -> Seq<At> {
    if list.contains(at) {
        list.remove(place_of(list, at))
    } else {
        list.push(at)
    }
}

/// The panel with a column picked, or taken out of the list again: its grouping
/// and its sorting go with it.
pub open spec fn with_toggled(pane: BuilderText, at: At) -> BuilderText {
    if pane.selected.contains(at) {
        BuilderText {
            selected: toggled_in(pane.selected, at),
            group_by: without_column(pane.group_by, at),
            order_by: without_order(pane.order_by, at),
            open_order: None,
            ..pane
        }
    } else {
        BuilderText { selected: toggled_in(pane.selected, at), ..pane }
    }
}

/// The panel with a column sorted by, or not any more.
pub open spec fn with_order(pane: BuilderText, at: At, direction: Option<SortDir>) -> BuilderText {
    let rest = without_order(pane.order_by, at);
    BuilderText {
        order_by: match direction {
            Some(direction) => rest.push((at, direction)),
            None => rest,
        },
        ..pane
    }
}

/// How the form names a column.
pub open spec fn column_label(tables: Seq<TableText>, at: At) -> Seq<char> {
    if at.0 >= tables.len() {
        "?"@
    } else {
        let table = tables[at.0 as int];
        if at.1 < table.columns.len() {
            table.alias + "."@ + table.columns[at.1 as int]
        } else {
            table.alias
        }
    }
}

fn move_column(at: At, table: usize) -> (r: Option<At>)
    ensures
        r == moved(at, table),
{
    if at.0 == table {
        None
    } else if at.0 > table {
        Some((at.0 - 1, at.1))
    } else {
        Some(at)
    }
}

fn move_columns(list: &Vec<At>, table: usize) -> (r: Vec<At>)
    ensures
        r@ == moved_columns(list@, table),
{
    let mut out: Vec<At> = Vec::new();
    let mut i: usize = 0;
    assert(list@.take(0) =~= Seq::<At>::empty());
    while i < list.len()
        invariant
            i <= list@.len(),
            out@ == moved_columns(list@.take(i as int), table),
        decreases list.len() - i,
    {
        let ghost next = list@.take(i + 1);
        assert(next.drop_last() =~= list@.take(i as int));
        assert(next.last() == list@[i as int]);
        match move_column(list[i], table) {
            Some(at) => {
                out.push(at);
            },
            None => {},
        }
        i = i + 1;
    }
    assert(list@.take(list@.len() as int) =~= list@);
    out
}

fn move_joins(list: &Vec<Join>, table: usize) -> (r: Vec<Join>)
    ensures
        r@ == moved_joins(list@, table),
{
    let mut out: Vec<Join> = Vec::new();
    let mut i: usize = 0;
    assert(list@.take(0) =~= Seq::<Join>::empty());
    while i < list.len()
        invariant
            i <= list@.len(),
            out@ == moved_joins(list@.take(i as int), table),
        decreases list.len() - i,
    {
        let ghost next = list@.take(i + 1);
        assert(next.drop_last() =~= list@.take(i as int));
        assert(next.last() == list@[i as int]);
        match (move_column(list[i].from, table), move_column(list[i].to, table)) {
            (Some(from), Some(to)) => {
                out.push(Join { from, to, kind: list[i].kind });
            },
            _ => {},
        }
        i = i + 1;
    }
    assert(list@.take(list@.len() as int) =~= list@);
    out
}

fn move_order(list: &Vec<(At, SortDir)>, table: usize) -> (r: Vec<(At, SortDir)>)
    ensures
        r@ == moved_order(list@, table),
{
    let mut out: Vec<(At, SortDir)> = Vec::new();
    let mut i: usize = 0;
    assert(list@.take(0) =~= Seq::<(At, SortDir)>::empty());
    while i < list.len()
        invariant
            i <= list@.len(),
            out@ == moved_order(list@.take(i as int), table),
        decreases list.len() - i,
    {
        let ghost next = list@.take(i + 1);
        assert(next.drop_last() =~= list@.take(i as int));
        assert(next.last() == list@[i as int]);
        match move_column(list[i].0, table) {
            Some(at) => {
                out.push((at, list[i].1));
            },
            None => {},
        }
        i = i + 1;
    }
    assert(list@.take(list@.len() as int) =~= list@);
    out
}

fn same_at(a: At, b: At) -> (r: bool)
    ensures
        r == (a == b),
{
    a.0 == b.0 && a.1 == b.1
}

fn drop_column(list: &Vec<At>, at: At) -> (r: Vec<At>)
    ensures
        r@ == without_column(list@, at),
{
    let mut out: Vec<At> = Vec::new();
    let mut i: usize = 0;
    assert(list@.take(0) =~= Seq::<At>::empty());
    while i < list.len()
        invariant
            i <= list@.len(),
            out@ == without_column(list@.take(i as int), at),
        decreases list.len() - i,
    {
        let ghost next = list@.take(i + 1);
        assert(next.drop_last() =~= list@.take(i as int));
        assert(next.last() == list@[i as int]);
        if !same_at(list[i], at) {
            out.push(list[i]);
        }
        i = i + 1;
    }
    assert(list@.take(list@.len() as int) =~= list@);
    out
}

fn drop_order(list: &Vec<(At, SortDir)>, at: At) -> (r: Vec<(At, SortDir)>)
    ensures
        r@ == without_order(list@, at),
{
    let mut out: Vec<(At, SortDir)> = Vec::new();
    let mut i: usize = 0;
    assert(list@.take(0) =~= Seq::<(At, SortDir)>::empty());
    while i < list.len()
        invariant
            i <= list@.len(),
            out@ == without_order(list@.take(i as int), at),
        decreases list.len() - i,
    {
        let ghost next = list@.take(i + 1);
        assert(next.drop_last() =~= list@.take(i as int));
        assert(next.last() == list@[i as int]);
        if !same_at(list[i].0, at) {
            out.push(list[i]);
        }
        i = i + 1;
    }
    assert(list@.take(list@.len() as int) =~= list@);
    out
}

fn position_of(list: &Vec<At>, at: At) -> (r: usize)
    ensures
        r <= list@.len(),
        (r < list@.len()) == list@.contains(at),
        r < list@.len() ==> r == place_of(list@, at),
{
    let mut i: usize = 0;
    while i < list.len()
        invariant
            i <= list@.len(),
            forall|k: int| 0 <= k < i ==> #[trigger] list@[k] != at,
        decreases list.len() - i,
    {
        if same_at(list[i], at) {
            proof {
                let first = place_of(list@, at);
                assert(list@[i as int] == at);
                assert(0 <= first < list@.len() && list@[first] == at);
                assert(first == i);
            }
            return i;
        }
        i = i + 1;
    }
    i
}

fn toggle_in(list: &mut Vec<At>, at: At) -> (r: bool)
    ensures
        final(list)@ == toggled_in(old(list)@, at),
        r == old(list)@.contains(at),
{
    let place: usize = position_of(list, at);
    if place < list.len() {
        list.remove(place);
        true
    } else {
        list.push(at);
        false
    }
}

/// The statement as the form shows it.
#[derive(Debug, PartialEq, Eq)]
pub struct SqlPreview {
    /// The statement, or a word where there is none.
    pub text: Caption,
    /// Whether there is one to open in an editor.
    pub can_open: bool,
}

/// What stands where the statement is shown.
pub open spec fn preview_text(sql: Seq<char>) -> CaptionText {
    if sql.len() == 0 {
        CaptionText::Key("builder.no_sql")
    } else {
        CaptionText::Text(sql)
    }
}

impl BuilderPane {
    /// An empty builder.
    pub fn new(connection: ConnectionId) -> (r: Self)
        ensures
            r.connection == connection,
            r@ == (BuilderText {
                tables: Seq::empty(),
                joins: Seq::empty(),
                selected: Seq::empty(),
                conditions: Seq::empty(),
                group_by: Seq::empty(),
                order_by: Seq::empty(),
                boxes: Seq::empty(),
                open_join: None,
                open_order: None,
                context_menu: None,
            }),
    {
        let r = BuilderPane {
            connection,
            query: BuilderQuery::default(),
            boxes: Vec::new(),
            open_join: None,
            open_order: None,
            context_menu: None,
        };
        assert(r@.tables =~= Seq::<TableText>::empty());
        assert(r@.boxes =~= Seq::<ErdTableText>::empty());
        assert(r@.joins =~= Seq::<Join>::empty());
        assert(r@.selected =~= Seq::<At>::empty());
        assert(r@.conditions =~= Seq::<Seq<char>>::empty());
        assert(r@.group_by =~= Seq::<At>::empty());
        assert(r@.order_by =~= Seq::<(At, SortDir)>::empty());
        r
    }

    /// Which connection this builder belongs to.
    pub fn connection(&self) -> (r: ConnectionId)
        ensures
            r == self.connection,
    {
        self.connection
    }

    /// How many tables are on the canvas.
    pub fn table_count(&self) -> (r: usize)
        ensures
            r == self@.tables.len(),
    {
        self.query.tables.len()
    }

    /// Puts a table on the canvas. It goes by its own name, or by `name_2` where
    /// that is taken: adding one table twice is a self-join, not a collision.
    /// Gives back what it goes by.
    pub fn add_table(&mut self, target: &ObjectTarget, columns: Vec<ErdColumn>) -> (r: String)
        ensures
            final(self)@ == with_table(old(self)@, *target, r@, erd_columns(columns@)),
            final(self).connection == old(self).connection,
            first_free_alias(target.name@, aliases(old(self)@.tables), r@),
            !aliases(old(self)@.tables).contains(r@),
    {
        let ghost before = self@;
        let ghost shown = erd_columns(columns@);
        let mut taken: Vec<String> = Vec::new();
        let mut i: usize = 0;
        while i < self.query.tables.len()
            invariant
                i <= self.query.tables@.len(),
                taken@.len() == i,
                forall|k: int|
                    0 <= k < i ==> (#[trigger] taken@[k])@ == self.query.tables@[k].alias@,
            decreases self.query.tables.len() - i,
        {
            taken.push(self.query.tables[i].alias.clone());
            i = i + 1;
        }
        assert(texts(taken@) =~= aliases(before.tables));
        let alias = unique_alias(target.name.as_str(), taken.as_slice());
        let mut names: Vec<String> = Vec::new();
        let mut c: usize = 0;
        while c < columns.len()
            invariant
                c <= columns@.len(),
                names@.len() == c,
                forall|k: int| 0 <= k < c ==> (#[trigger] names@[k])@ == columns@[k].name@,
            decreases columns.len() - c,
        {
            names.push(columns[c].name.clone());
            c = c + 1;
        }
        assert(texts(names@) =~= shown.map_values(|c: ErdColumnText| c.name));
        let table = BuilderTable {
            catalog: copy_part(&target.catalog),
            schema: copy_part(&target.schema),
            name: target.name.clone(),
            alias: alias.clone(),
            columns: names,
        };
        assert(table@ =~= added_table(*target, alias@, shown));
        let ghost put = table@;
        self.query.tables.push(table);
        self.boxes.push(ErdTable { name: alias.clone(), columns });
        assert(self@.tables =~= before.tables.push(put));
        assert(self@.boxes =~= before.boxes.push(ErdTableText { name: alias@, columns: shown }));
        alias
    }

    /// Takes a table off the canvas, and everything that named it with it.
    pub fn remove_table(&mut self, table: usize)
        requires
            old(self)@.boxes.len() == old(self)@.tables.len(),
        ensures
            final(self)@ == without_table(old(self)@, table),
            final(self).connection == old(self).connection,
    {
        let ghost before = self@;
        if table >= self.query.tables.len() {
            return;
        }
        self.query.tables.remove(table);
        self.boxes.remove(table);
        self.query.joins = move_joins(&self.query.joins, table);
        self.query.selected = move_columns(&self.query.selected, table);
        self.query.group_by = move_columns(&self.query.group_by, table);
        self.query.order_by = move_order(&self.query.order_by, table);
        self.open_join = None;
        self.open_order = None;
        assert(self@.tables =~= before.tables.remove(table as int));
        assert(self@.boxes =~= before.boxes.remove(table as int));
    }

    /// Adds a join between two columns, or does nothing where one is there: drawn
    /// back the other way it is the same join.
    pub fn add_join(&mut self, from: At, to: At)
        ensures
            final(self)@ == with_join(old(self)@, from, to),
            final(self).connection == old(self).connection,
    {
        let known = self.is_joined(from, to);
        if known {
            return;
        }
        self.query.joins.push(Join { from, to, kind: JoinKind::Inner });
    }

    fn is_joined(&self, from: At, to: At) -> (r: bool)
        ensures
            r == are_joined(self@.joins, from, to),
    {
        let mut i: usize = 0;
        while i < self.query.joins.len()
            invariant
                i <= self.query.joins@.len(),
                forall|k: int|
                    0 <= k < i ==> !relates(#[trigger] self.query.joins@[k], from, to),
            decreases self.query.joins.len() - i,
        {
            let join = self.query.joins[i];
            if (same_at(join.from, from) && same_at(join.to, to)) || (same_at(join.from, to)
                && same_at(join.to, from)) {
                assert(relates(self.query.joins@[i as int], from, to));
                return true;
            }
            i = i + 1;
        }
        false
    }

    /// Picks a column, or takes it out of the list again.
    pub fn toggle_column(&mut self, table: usize, column: usize)
        ensures
            final(self)@ == with_toggled(old(self)@, (table, column)),
            final(self).connection == old(self).connection,
    {
        let at: At = (table, column);
        if toggle_in(&mut self.query.selected, at) {
            self.query.group_by = drop_column(&self.query.group_by, at);
            self.query.order_by = drop_order(&self.query.order_by, at);
            self.open_order = None;
        }
    }

    /// Changes one join's type.
    pub fn set_join_kind(&mut self, index: usize, kind: JoinKind)
        ensures
            final(self)@ == (if index < old(self)@.joins.len() {
                BuilderText {
                    joins: old(self)@.joins.update(
                        index as int,
                        Join { kind, ..old(self)@.joins[index as int] },
                    ),
                    ..old(self)@
                }
            } else {
                old(self)@
            }),
            final(self).connection == old(self).connection,
    {
        let ghost before = self@;
        if index < self.query.joins.len() {
            let join = self.query.joins[index];
            self.query.joins.set(index, Join { from: join.from, to: join.to, kind });
            assert(self@.joins =~= before.joins.update(
                index as int,
                Join { kind, ..before.joins[index as int] },
            ));
        }
    }

    /// Removes one join.
    pub fn remove_join(&mut self, index: usize)
        ensures
            final(self)@ == (if index < old(self)@.joins.len() {
                BuilderText {
                    joins: old(self)@.joins.remove(index as int),
                    open_join: None,
                    ..old(self)@
                }
            } else {
                old(self)@
            }),
            final(self).connection == old(self).connection,
    {
        if index < self.query.joins.len() {
            self.query.joins.remove(index);
            self.open_join = None;
        }
    }

    /// Adds an empty condition.
    pub fn add_condition(&mut self)
        ensures
            final(self)@ == (BuilderText {
                conditions: old(self)@.conditions.push(Seq::empty()),
                ..old(self)@
            }),
            final(self).connection == old(self).connection,
    {
        let ghost before = self@;
        self.query.where_clauses.push(String::new());
        assert(self@.conditions =~= before.conditions.push(Seq::empty()));
    }

    /// Removes one condition.
    pub fn remove_condition(&mut self, index: usize)
        ensures
            final(self)@ == (if index < old(self)@.conditions.len() {
                BuilderText {
                    conditions: old(self)@.conditions.remove(index as int),
                    ..old(self)@
                }
            } else {
                old(self)@
            }),
            final(self).connection == old(self).connection,
    {
        let ghost before = self@;
        if index < self.query.where_clauses.len() {
            self.query.where_clauses.remove(index);
            assert(self@.conditions =~= before.conditions.remove(index as int));
        }
    }

    /// Sets one condition's text.
    pub fn set_condition(&mut self, index: usize, text: &str)
        ensures
            final(self)@ == (if index < old(self)@.conditions.len() {
                BuilderText {
                    conditions: old(self)@.conditions.update(index as int, text@),
                    ..old(self)@
                }
            } else {
                old(self)@
            }),
            final(self).connection == old(self).connection,
    {
        let ghost before = self@;
        if index < self.query.where_clauses.len() {
            self.query.where_clauses.set(index, text.to_owned());
            assert(self@.conditions =~= before.conditions.update(index as int, text@));
        }
    }

    /// Groups by one picked column, or stops doing so.
    pub fn toggle_group_by(&mut self, at: At)
        ensures
            final(self)@ == (BuilderText {
                group_by: toggled_in(old(self)@.group_by, at),
                ..old(self)@
            }),
            final(self).connection == old(self).connection,
    {
        toggle_in(&mut self.query.group_by, at);
    }

    /// Sorts by one picked column, or stops doing so.
    pub fn set_order_by(&mut self, at: At, direction: Option<SortDir>)
        ensures
            final(self)@ == with_order(old(self)@, at, direction),
            final(self).connection == old(self).connection,
    {
        self.query.order_by = drop_order(&self.query.order_by, at);
        match direction {
            Some(direction) => {
                self.query.order_by.push((at, direction));
            },
            None => {},
        }
    }

    /// The statement the panel describes, with the names as the dialect spells
    /// them.
    pub fn sql(&self, names: &Vec<SpelledTable>) -> (r: String)
        requires
            spells(names@, self.query),
        ensures
            r@ == statement(self.query, names@),
    {
        generate(&self.query, names)
    }

    /// The statement to open in an editor: none over an empty canvas.
    pub fn open_in_editor(&self, names: &Vec<SpelledTable>) -> (r: Option<String>)
        requires
            spells(names@, self.query),
        ensures
            match r {
                Some(sql) => sql@ == statement(self.query, names@) && sql@.len() > 0,
                None => statement(self.query, names@).len() == 0,
            },
    {
        let sql = self.sql(names);
        if sql.as_str().unicode_len() == 0 {
            None
        } else {
            Some(sql)
        }
    }

    /// The statement as the form shows it, and whether it can be opened in an
    /// editor.
    pub fn preview(&self, names: &Vec<SpelledTable>) -> (r: SqlPreview)
        requires
            spells(names@, self.query),
        ensures
            r.text@ == preview_text(statement(self.query, names@)),
            r.can_open == (statement(self.query, names@).len() > 0),
    {
        let sql = self.sql(names);
        let empty = sql.as_str().unicode_len() == 0;
        SqlPreview {
            text: if empty {
                Caption::Key("builder.no_sql")
            } else {
                Caption::Text(sql)
            },
            can_open: !empty,
        }
    }

    /// Whether the keyboard belongs on the canvas: not until there is something on
    /// it.
    pub fn focus_goes_to_the_canvas(&self) -> (r: bool)
        ensures
            r == (self@.tables.len() > 0),
    {
        self.query.tables.len() > 0
    }

    /// Opens the canvas's menu over what is under the pointer.
    pub fn open_context_menu(&mut self, hit: Option<(usize, Option<usize>)>)
        ensures
            final(self)@ == (BuilderText {
                context_menu: Some(CanvasMenu { hit }),
                ..old(self)@
            }),
            final(self).connection == old(self).connection,
    {
        self.context_menu = Some(CanvasMenu { hit });
    }

    /// Puts the canvas's menu away, and says whether there was one.
    pub fn close_context_menu(&mut self) -> (r: bool)
        ensures
            r == (old(self)@.context_menu is Some),
            final(self)@ == (BuilderText { context_menu: None, ..old(self)@ }),
            final(self).connection == old(self).connection,
    {
        let open = self.context_menu.is_some();
        self.context_menu = None;
        open
    }

    /// How the form names a column. One that is not there reads as a placeholder.
    pub fn label_of(&self, at: At) -> (r: String)
        ensures
            r@ == column_label(self@.tables, at),
    {
        if at.0 >= self.query.tables.len() {
            return "?".to_owned();
        }
        let table = &self.query.tables[at.0];
        let mut label = table.alias.clone();
        if at.1 < table.columns.len() {
            label.append(".");
            label.append(table.columns[at.1].as_str());
        }
        label
    }
}

/// Something the canvas's menu can do.
#[derive(Clone, Copy, Debug, PartialEq, Eq)]
pub enum CanvasCommand {
    RemoveTable(usize),
    ToggleColumn(usize, usize),
    ZoomIn,
    ZoomOut,
    ZoomReset,
}

/// What a canvas as such can do.
pub open spec fn zoom_rows() -> Seq<MenuText<CanvasCommand>> {
    seq![
        menu_row(plain("context.zoom_in"), true, CanvasCommand::ZoomIn),
        menu_row(plain("context.zoom_out"), true, CanvasCommand::ZoomOut),
        menu_row(plain("context.zoom_reset"), true, CanvasCommand::ZoomReset),
    ]
}

/// What a column's row adds: the way in, or the way out.
pub open spec fn column_rows(selected: Seq<At>, table: usize, column: usize) -> MenuText<
    CanvasCommand,
> {
    menu_row(
        plain(
            if selected.contains((table, column)) {
                "context.clear_column"
            } else {
                "context.select_column"
            },
        ),
        true,
        CanvasCommand::ToggleColumn(table, column),
    )
}

/// The canvas's menu over what was under the pointer: a box can be taken off, a
/// column picked or not, and the canvas zoomed.
pub open spec fn canvas_menu(selected: Seq<At>, hit: Option<(usize, Option<usize>)>) -> Seq<
    MenuText<CanvasCommand>,
> {
    match hit {
        None => zoom_rows(),
        Some((table, None)) => seq![
            menu_row(plain("context.remove_table"), true, CanvasCommand::RemoveTable(table)),
            MenuText::Separator,
        ] + zoom_rows(),
        Some((table, Some(column))) => seq![
            menu_row(plain("context.remove_table"), true, CanvasCommand::RemoveTable(table)),
            column_rows(selected, table, column),
            MenuText::Separator,
        ] + zoom_rows(),
    }
}

/// The label of a join's type.
pub open spec fn kind_label(kind: JoinKind) -> &'static str {
    match kind {
        JoinKind::Inner => "builder.join_inner",
        JoinKind::Left => "builder.join_left",
        JoinKind::Right => "builder.join_right",
        JoinKind::Full => "builder.join_full",
    }
}

/// What the list calls a join's type.
pub fn join_label(kind: JoinKind) -> (r: &'static str)
    ensures
        r == kind_label(kind),
{
    match kind {
        JoinKind::Inner => "builder.join_inner",
        JoinKind::Left => "builder.join_left",
        JoinKind::Right => "builder.join_right",
        JoinKind::Full => "builder.join_full",
    }
}

/// The label of a direction.
pub open spec fn direction_label(direction: Option<SortDir>) -> &'static str {
    match direction {
        None => "builder.order_none",
        Some(SortDir::Asc) => "builder.order_asc",
        Some(SortDir::Desc) => "builder.order_desc",
    }
}

/// What the list calls a direction.
pub fn sort_label(direction: Option<SortDir>) -> (r: &'static str)
    ensures
        r == direction_label(direction),
{
    match direction {
        None => "builder.order_none",
        Some(SortDir::Asc) => "builder.order_asc",
        Some(SortDir::Desc) => "builder.order_desc",
    }
}

/// The directions a list offers, in order.
pub fn sorts() -> (r: [Option<SortDir>; 3])
    ensures
        r@ == seq![None, Some(SortDir::Asc), Some(SortDir::Desc)],
{
    [None, Some(SortDir::Asc), Some(SortDir::Desc)]
}

/// A row of the list of joins.
#[derive(Debug, PartialEq, Eq)]
pub struct JoinRow {
    pub label: String,
    pub kind: &'static str,
    pub open: bool,
}

/// A row of the list of joins.
pub ghost struct JoinRowText {
    pub label: Seq<char>,
    pub kind: &'static str,
    pub open: bool,
}

impl View for JoinRow {
    type V = JoinRowText;

    open spec fn view(&self) -> JoinRowText {
        JoinRowText { label: self.label@, kind: self.kind, open: self.open }
    }
}

/// The row of a join.
pub open spec fn join_row(pane: BuilderText, index: int) -> JoinRowText {
    let join = pane.joins[index];
    JoinRowText {
        label: column_label(pane.tables, join.from) + " = "@ + column_label(pane.tables, join.to),
        kind: kind_label(join.kind),
        open: match pane.open_join {
            Some(open) => open == index,
            None => false,
        },
    }
}

/// A row of the list of picked columns.
#[derive(Debug, PartialEq, Eq)]
pub struct ColumnRow {
    pub at: At,
    pub label: String,
    pub grouped: bool,
    pub sorted: &'static str,
    pub open: bool,
}

/// A row of the list of picked columns.
pub ghost struct ColumnRowText {
    pub at: At,
    pub label: Seq<char>,
    pub grouped: bool,
    pub sorted: &'static str,
    pub open: bool,
}

impl View for ColumnRow {
    type V = ColumnRowText;

    open spec fn view(&self) -> ColumnRowText {
        ColumnRowText {
            at: self.at,
            label: self.label@,
            grouped: self.grouped,
            sorted: self.sorted,
            open: self.open,
        }
    }
}

/// Which way a column is sorted by: the first term over it counts.
pub open spec fn direction_of(list: Seq<(At, SortDir)>, at: At) -> Option<SortDir>
    decreases list.len(),
{
    if list.len() == 0 {
        None
    } else {
        match direction_of(list.drop_last(), at) {
            Some(direction) => Some(direction),
            None => if list.last().0 == at {
                Some(list.last().1)
            } else {
                None
            },
        }
    }
}

/// The row of a picked column.
pub open spec fn column_row(pane: BuilderText, index: int) -> ColumnRowText {
    let at = pane.selected[index];
    ColumnRowText {
        at,
        label: column_label(pane.tables, at),
        grouped: pane.group_by.contains(at),
        sorted: direction_label(direction_of(pane.order_by, at)),
        open: match pane.open_order {
            Some(open) => open == index,
            None => false,
        },
    }
}

fn find_direction(list: &Vec<(At, SortDir)>, at: At) -> (r: Option<SortDir>)
    ensures
        r == direction_of(list@, at),
{
    let mut found: Option<SortDir> = None;
    let mut i: usize = 0;
    assert(list@.take(0) =~= Seq::<(At, SortDir)>::empty());
    while i < list.len()
        invariant
            i <= list@.len(),
            found == direction_of(list@.take(i as int), at),
        decreases list.len() - i,
    {
        let ghost next = list@.take(i + 1);
        assert(next.drop_last() =~= list@.take(i as int));
        assert(next.last() == list@[i as int]);
        if found.is_none() && same_at(list[i].0, at) {
            found = Some(list[i].1);
        }
        i = i + 1;
    }
    assert(list@.take(list@.len() as int) =~= list@);
    found
}

impl BuilderPane {
    /// The canvas's menu over what was under the pointer.
    pub fn canvas_rows(&self, hit: Option<(usize, Option<usize>)>) -> (r: Vec<
        MenuRow<CanvasCommand>,
    >)
        ensures
            menu_texts(r@) == canvas_menu(self@.selected, hit),
    {
        let mut rows: Vec<MenuRow<CanvasCommand>> = Vec::new();
        assert(menu_texts(rows@) =~= Seq::<MenuText<CanvasCommand>>::empty());
        match hit {
            Some((table, column)) => {
                push_row(
                    &mut rows,
                    Label::plain("context.remove_table"),
                    true,
                    false,
                    None,
                    CanvasCommand::RemoveTable(table),
                );
                match column {
                    Some(column) => {
                        let place: usize = position_of(&self.query.selected, (table, column));
                        let key = if place < self.query.selected.len() {
                            "context.clear_column"
                        } else {
                            "context.select_column"
                        };
                        push_row(
                            &mut rows,
                            Label::plain(key),
                            true,
                            false,
                            None,
                            CanvasCommand::ToggleColumn(table, column),
                        );
                    },
                    None => {},
                }
                push_separator(&mut rows);
            },
            None => {},
        }
        push_row(
            &mut rows,
            Label::plain("context.zoom_in"),
            true,
            false,
            None,
            CanvasCommand::ZoomIn,
        );
        push_row(
            &mut rows,
            Label::plain("context.zoom_out"),
            true,
            false,
            None,
            CanvasCommand::ZoomOut,
        );
        push_row(
            &mut rows,
            Label::plain("context.zoom_reset"),
            true,
            false,
            None,
            CanvasCommand::ZoomReset,
        );
        assert(menu_texts(rows@) =~= canvas_menu(self@.selected, hit));
        rows
    }

    /// The list of joins, a line to a row.
    pub fn join_rows(&self) -> (r: Vec<JoinRow>)
        ensures
            r@.map_values(|row: JoinRow| row@) == Seq::new(
                self@.joins.len(),
                |k: int| join_row(self@, k),
            ),
    {
        let mut rows: Vec<JoinRow> = Vec::new();
        let mut i: usize = 0;
        while i < self.query.joins.len()
            invariant
                i <= self.query.joins@.len(),
                rows@.len() == i,
                forall|k: int| 0 <= k < i ==> (#[trigger] rows@[k])@ == join_row(self@, k),
            decreases self.query.joins.len() - i,
        {
            let join = self.query.joins[i];
            let mut label = self.label_of(join.from);
            label.append(" = ");
            let to = self.label_of(join.to);
            label.append(to.as_str());
            let open = match self.open_join {
                Some(open) => open == i,
                None => false,
            };
            rows.push(JoinRow { label, kind: join_label(join.kind), open });
            i = i + 1;
        }
        assert(rows@.map_values(|row: JoinRow| row@) =~= Seq::new(
            self@.joins.len(),
            |k: int| join_row(self@, k),
        ));
        rows
    }

    /// The picked columns, each with its grouping and its sorting.
    pub fn column_rows(&self) -> (r: Vec<ColumnRow>)
        ensures
            r@.map_values(|row: ColumnRow| row@) == Seq::new(
                self@.selected.len(),
                |k: int| column_row(self@, k),
            ),
    {
        let mut rows: Vec<ColumnRow> = Vec::new();
        let mut i: usize = 0;
        while i < self.query.selected.len()
            invariant
                i <= self.query.selected@.len(),
                rows@.len() == i,
                forall|k: int| 0 <= k < i ==> (#[trigger] rows@[k])@ == column_row(self@, k),
            decreases self.query.selected.len() - i,
        {
            let at: At = self.query.selected[i];
            let place: usize = position_of(&self.query.group_by, at);
            let open = match self.open_order {
                Some(open) => open == i,
                None => false,
            };
            rows.push(
                ColumnRow {
                    at,
                    label: self.label_of(at),
                    grouped: place < self.query.group_by.len(),
                    sorted: sort_label(find_direction(&self.query.order_by, at)),
                    open,
                },
            );
            i = i + 1;
        }
        assert(rows@.map_values(|row: ColumnRow| row@) =~= Seq::new(
            self@.selected.len(),
            |k: int| column_row(self@, k),
        ));
        rows
    }
}

/// The request for one table's columns.
pub fn columns_request(target: &ObjectTarget) -> (r: DescribeRequest)
    ensures
        r.kind == DescribeKind::Columns,
        r.catalog == target.catalog,
        r.schema == target.schema,
        r.table == Some(target.name),
        r.types is None,
{
    DescribeRequest {
        kind: DescribeKind::Columns,
        catalog: copy_part(&target.catalog),
        schema: copy_part(&target.schema),
        table: Some(target.name.clone()),
        types: None,
    }
}

/// The columns in catalogue order: by ordinal, and by name where a driver reports
/// none.
pub open spec fn in_catalogue_order(items: Seq<ColumnItemText>) -> Seq<ColumnItemText> {
    stable_order(items.map_values(|c: ColumnItemText| column_key(c))).map_values(
        |i: int| items[i],
    )
}

/// The columns of a box in the builder: those that have a name, without the marks
/// of the keys.
pub open spec fn plain_columns(items: Seq<ColumnItemText>) -> Seq<ErdColumnText>
    decreases items.len(),
{
    if items.len() == 0 {
        Seq::empty()
    } else {
        let earlier = plain_columns(items.drop_last());
        match items.last().name {
            Some(name) => earlier.push(
                ErdColumnText {
                    name,
                    type_text: items.last().type_text,
                    nullable: true,
                    primary_key: false,
                    foreign_key: false,
                },
            ),
            None => earlier,
        }
    }
}

/// One table's columns, in catalogue order.
pub fn load_columns(items: &Vec<ColumnItem>) -> (r: Vec<ErdColumn>)
    ensures
        erd_columns(r@) == plain_columns(in_catalogue_order(column_items(items@))),
{
    let ghost all = column_items(items@);
    let mut keys: Vec<SortKey> = Vec::new();
    let mut i: usize = 0;
    while i < items.len()
        invariant
            i <= items@.len(),
            all == column_items(items@),
            keys@.len() == i,
            forall|k: int| 0 <= k < i ==> (#[trigger] keys@[k])@ == column_key(all[k]),
        decreases items.len() - i,
    {
        assert(all[i as int] == items@[i as int]@);
        keys.push(
            SortKey {
                number: match items[i].ordinal {
                    Some(ordinal) => ordinal,
                    None => i64::MAX,
                },
                first: copy_part(&items[i].name),
                second: None,
            },
        );
        i = i + 1;
    }
    assert(key_texts(keys@) =~= all.map_values(|c: ColumnItemText| column_key(c)));
    let order = sort_places(&keys);
    let ghost sorted = in_catalogue_order(all);
    let mut columns: Vec<ErdColumn> = Vec::new();
    let mut j: usize = 0;
    assert(sorted.take(0) =~= Seq::<ColumnItemText>::empty());
    assert(erd_columns(columns@) =~= Seq::<ErdColumnText>::empty());
    while j < order.len()
        invariant
            j <= order@.len(),
            order@.len() == items@.len(),
            sorted.len() == order@.len(),
            all == column_items(items@),
            sorted == in_catalogue_order(all),
            places(order@) == stable_order(all.map_values(|c: ColumnItemText| column_key(c))),
            forall|a: int| 0 <= a < order@.len() ==> #[trigger] order@[a] < items@.len(),
            erd_columns(columns@) == plain_columns(sorted.take(j as int)),
        decreases order.len() - j,
    {
        let ghost next = sorted.take(j + 1);
        let place: usize = order[j];
        proof {
            assert(next.drop_last() =~= sorted.take(j as int));
            assert(places(order@)[j as int] == place);
            assert(next.last() == all[place as int]);
            assert(all[place as int] == items@[place as int]@);
        }
        let item = &items[place];
        let ghost earlier = erd_columns(columns@);
        match &item.name {
            Some(name) => {
                let column = ErdColumn {
                    name: name.clone(),
                    type_text: item.type_text.clone(),
                    nullable: true,
                    primary_key: false,
                    foreign_key: false,
                };
                let ghost shown = column@;
                columns.push(column);
                assert(erd_columns(columns@) =~= earlier.push(shown));
            },
            None => {},
        }
        j = j + 1;
    }
    assert(sorted.take(sorted.len() as int) =~= sorted);
    columns
}

/// What is true of a builder at any time: every table has a box under its alias,
/// no two tables share one, no column is picked, grouped or sorted by twice, no
/// two columns are joined twice, and only picked columns are grouped or sorted by.
pub open spec fn consistent(pane: BuilderText) -> bool {
    &&& pane.boxes.len() == pane.tables.len()
    &&& forall|i: int|
        0 <= i < pane.tables.len() ==> (#[trigger] pane.boxes[i]).name == pane.tables[i].alias
    &&& aliases(pane.tables).no_duplicates()
    &&& pane.selected.no_duplicates()
    &&& pane.group_by.no_duplicates()
    &&& forall|i: int, j: int|
        0 <= i < j < pane.order_by.len() ==> (#[trigger] pane.order_by[i]).0 != (
        #[trigger] pane.order_by[j]).0
    &&& forall|i: int, j: int|
        0 <= i < j < pane.joins.len() ==> !relates(
            #[trigger] pane.joins[j],
            (#[trigger] pane.joins[i]).from,
            pane.joins[i].to,
        )
    &&& forall|i: int|
        0 <= i < pane.group_by.len() ==> pane.selected.contains(#[trigger] pane.group_by[i])
    &&& forall|i: int|
        0 <= i < pane.order_by.len() ==> pane.selected.contains((#[trigger] pane.order_by[i]).0)
}

/// A table that stays is still the table its columns name: taking one off moves
/// every pair above it down with the tables.
pub proof fn removing_a_table_keeps_the_others(tables: Seq<TableText>, table: usize, at: At)
    requires
        table < tables.len(),
        at.0 < tables.len(),
    ensures
        match moved(at, table) {
            Some(now) => now.0 < tables.len() - 1 && now.1 == at.1 && tables.remove(
                table as int,
            )[now.0 as int] == tables[at.0 as int] && column_label(
                tables.remove(table as int),
                now,
            ) == column_label(tables, at),
            None => at.0 == table,
        },
{
}

/// Moving a list of columns loses the ones of the table that went, keeps the
/// order of the rest, and leaves no column twice that was there once.
proof fn lemma_moved_columns(list: Seq<At>, table: usize)
    ensures
        list.no_duplicates() ==> moved_columns(list, table).no_duplicates(),
        forall|at: At| #[trigger]
            list.contains(at) && at.0 != table ==> moved_columns(list, table).contains(
                moved(at, table).unwrap(),
            ),
        forall|i: int|
            0 <= i < moved_columns(list, table).len() ==> exists|j: int|
                0 <= j < list.len() && moved(#[trigger] list[j], table) == Some(
                    #[trigger] moved_columns(list, table)[i],
                ),
    decreases list.len(),
{
    if list.len() > 0 {
        let shorter = list.drop_last();
        lemma_moved_columns(shorter, table);
        let earlier = moved_columns(shorter, table);
        let all = moved_columns(list, table);
        assert forall|at: At| #[trigger] list.contains(at) && at.0 != table implies all.contains(
            moved(at, table).unwrap(),
        ) by {
            let j = choose|j: int| 0 <= j < list.len() && list[j] == at;
            if j < shorter.len() {
                assert(shorter[j] == at);
                assert(shorter.contains(at));
                let now = moved(at, table).unwrap();
                let k = choose|k: int| 0 <= k < earlier.len() && earlier[k] == now;
                assert(all[k] == now);
            } else {
                assert(all.last() == moved(at, table).unwrap());
            }
        }
        assert forall|i: int| 0 <= i < all.len() implies exists|j: int|
            0 <= j < list.len() && moved(#[trigger] list[j], table) == Some(
                #[trigger] all[i],
            ) by {
            if i < earlier.len() {
                assert(all[i] == earlier[i]);
                let j = choose|j: int|
                    0 <= j < shorter.len() && moved(#[trigger] shorter[j], table) == Some(
                        earlier[i],
                    );
                assert(list[j] == shorter[j]);
                assert(moved(list[j], table) == Some(all[i]));
            } else {
                assert(moved(list[list.len() - 1], table) == Some(all[i]));
            }
        }
        if list.no_duplicates() {
            assert(shorter.no_duplicates());
            if moved(list.last(), table) is Some {
                assert forall|i: int| 0 <= i < earlier.len() implies earlier[i] != all.last() by {
                    let j = choose|j: int|
                        0 <= j < shorter.len() && moved(#[trigger] shorter[j], table) == Some(
                            earlier[i],
                        );
                    assert(list[j] == shorter[j]);
                    assert(list[j] != list[list.len() - 1]);
                }
            }
        }
    }
}

/// The same of the sorted columns.
proof fn lemma_moved_order(list: Seq<(At, SortDir)>, table: usize)
    ensures
        forall|i: int|
            0 <= i < moved_order(list, table).len() ==> exists|j: int|
                0 <= j < list.len() && moved((#[trigger] list[j]).0, table) == Some(
                    (#[trigger] moved_order(list, table)[i]).0,
                ),
        (forall|i: int, j: int|
            0 <= i < j < list.len() ==> (#[trigger] list[i]).0 != (#[trigger] list[j]).0) ==> (
        forall|i: int, j: int|
            0 <= i < j < moved_order(list, table).len() ==> (#[trigger] moved_order(
                list,
                table,
            )[i]).0 != (#[trigger] moved_order(list, table)[j]).0),
    decreases list.len(),
{
    if list.len() > 0 {
        let shorter = list.drop_last();
        lemma_moved_order(shorter, table);
        let earlier = moved_order(shorter, table);
        let all = moved_order(list, table);
        assert forall|i: int| 0 <= i < all.len() implies exists|j: int|
            0 <= j < list.len() && moved((#[trigger] list[j]).0, table) == Some(
                (#[trigger] all[i]).0,
            ) by {
            if i < earlier.len() {
                assert(all[i] == earlier[i]);
                let j = choose|j: int|
                    0 <= j < shorter.len() && moved((#[trigger] shorter[j]).0, table) == Some(
                        earlier[i].0,
                    );
                assert(list[j] == shorter[j]);
                assert(moved(list[j].0, table) == Some(all[i].0));
            } else {
                assert(moved(list[list.len() - 1].0, table) == Some(all[i].0));
            }
        }
        if forall|i: int, j: int|
            0 <= i < j < list.len() ==> (#[trigger] list[i]).0 != (#[trigger] list[j]).0 {
            assert forall|i: int, j: int| 0 <= i < j < shorter.len() implies (
            #[trigger] shorter[i]).0 != (#[trigger] shorter[j]).0 by {
                assert(list[i].0 != list[j].0);
            }
            assert forall|i: int, j: int| 0 <= i < j < all.len() implies (#[trigger] all[i]).0 != (
            #[trigger] all[j]).0 by {
                assert(all[i] == earlier[i]);
                if j < earlier.len() {
                    assert(all[j] == earlier[j]);
                } else {
                    let k = choose|k: int|
                        0 <= k < shorter.len() && moved((#[trigger] shorter[k]).0, table) == Some(
                            earlier[i].0,
                        );
                    assert(list[k] == shorter[k]);
                    assert(list[k].0 != list[list.len() - 1].0);
                }
            }
        }
    }
}

/// And of the joins.
proof fn lemma_moved_joins(list: Seq<Join>, table: usize)
    ensures
        forall|i: int|
            0 <= i < moved_joins(list, table).len() ==> exists|j: int|
                0 <= j < list.len() && moved((#[trigger] list[j]).from, table) == Some(
                    (#[trigger] moved_joins(list, table)[i]).from,
                ) && moved(list[j].to, table) == Some(moved_joins(list, table)[i].to),
        (forall|i: int, j: int|
            0 <= i < j < list.len() ==> !relates(
                #[trigger] list[j],
                (#[trigger] list[i]).from,
                list[i].to,
            )) ==> (forall|i: int, j: int|
            0 <= i < j < moved_joins(list, table).len() ==> !relates(
                #[trigger] moved_joins(list, table)[j],
                (#[trigger] moved_joins(list, table)[i]).from,
                moved_joins(list, table)[i].to,
            )),
    decreases list.len(),
{
    if list.len() > 0 {
        let shorter = list.drop_last();
        lemma_moved_joins(shorter, table);
        let earlier = moved_joins(shorter, table);
        let all = moved_joins(list, table);
        assert forall|i: int| 0 <= i < all.len() implies exists|j: int|
            0 <= j < list.len() && moved((#[trigger] list[j]).from, table) == Some(
                (#[trigger] all[i]).from,
            ) && moved(list[j].to, table) == Some(all[i].to) by {
            if i < earlier.len() {
                assert(all[i] == earlier[i]);
                let j = choose|j: int|
                    0 <= j < shorter.len() && moved((#[trigger] shorter[j]).from, table) == Some(
                        earlier[i].from,
                    ) && moved(shorter[j].to, table) == Some(earlier[i].to);
                assert(list[j] == shorter[j]);
                assert(moved(list[j].from, table) == Some(all[i].from));
            } else {
                assert(moved(list[list.len() - 1].from, table) == Some(all[i].from));
            }
        }
        if forall|i: int, j: int|
            0 <= i < j < list.len() ==> !relates(
                #[trigger] list[j],
                (#[trigger] list[i]).from,
                list[i].to,
            ) {
            assert forall|i: int, j: int| 0 <= i < j < shorter.len() implies !relates(
                #[trigger] shorter[j],
                (#[trigger] shorter[i]).from,
                shorter[i].to,
            ) by {
                assert(!relates(list[j], list[i].from, list[i].to));
            }
            assert forall|i: int, j: int| 0 <= i < j < all.len() implies !relates(
                #[trigger] all[j],
                (#[trigger] all[i]).from,
                all[i].to,
            ) by {
                assert(all[i] == earlier[i]);
                if j < earlier.len() {
                    assert(all[j] == earlier[j]);
                } else {
                    let k = choose|k: int|
                        0 <= k < shorter.len() && moved((#[trigger] shorter[k]).from, table)
                            == Some(earlier[i].from) && moved(shorter[k].to, table) == Some(
                            earlier[i].to,
                        );
                    assert(list[k] == shorter[k]);
                    assert(!relates(list[list.len() - 1], list[k].from, list[k].to));
                }
            }
        }
    }
}

/// Taking a table off leaves the builder consistent.
pub proof fn removing_a_table_stays_consistent(pane: BuilderText, table: usize)
    requires
        consistent(pane),
    ensures
        consistent(without_table(pane, table)),
{
    if table < pane.tables.len() {
        let after = without_table(pane, table);
        lemma_moved_columns(pane.selected, table);
        lemma_moved_columns(pane.group_by, table);
        lemma_moved_order(pane.order_by, table);
        lemma_moved_joins(pane.joins, table);
        assert forall|i: int| 0 <= i < after.tables.len() implies (#[trigger] after.boxes[i]).name
            == after.tables[i].alias by {
            let was = if i < table {
                i
            } else {
                i + 1
            };
            assert(pane.boxes[was].name == pane.tables[was].alias);
        }
        let names = aliases(pane.tables);
        assert forall|i: int, j: int|
            0 <= i < aliases(after.tables).len() && 0 <= j < aliases(after.tables).len() && i
                != j implies aliases(after.tables)[i] != aliases(after.tables)[j] by {
            let was_i = if i < table {
                i
            } else {
                i + 1
            };
            let was_j = if j < table {
                j
            } else {
                j + 1
            };
            assert(names[was_i] != names[was_j]);
        }
        assert forall|i: int| 0 <= i < after.group_by.len() implies after.selected.contains(
            #[trigger] after.group_by[i],
        ) by {
            let j = choose|j: int|
                0 <= j < pane.group_by.len() && moved(#[trigger] pane.group_by[j], table) == Some(
                    after.group_by[i],
                );
            assert(pane.selected.contains(pane.group_by[j]));
        }
        assert forall|i: int| 0 <= i < after.order_by.len() implies after.selected.contains(
            (#[trigger] after.order_by[i]).0,
        ) by {
            let j = choose|j: int|
                0 <= j < pane.order_by.len() && moved((#[trigger] pane.order_by[j]).0, table)
                    == Some(after.order_by[i].0);
            assert(pane.selected.contains(pane.order_by[j].0));
        }
    }
}

/// What a list without a column holds.
proof fn lemma_without_column(list: Seq<At>, at: At)
    ensures
        !without_column(list, at).contains(at),
        list.no_duplicates() ==> without_column(list, at).no_duplicates(),
        forall|i: int|
            0 <= i < without_column(list, at).len() ==> list.contains(
                #[trigger] without_column(list, at)[i],
            ),
    decreases list.len(),
{
    if list.len() > 0 {
        let shorter = list.drop_last();
        lemma_without_column(shorter, at);
        let earlier = without_column(shorter, at);
        let rest = without_column(list, at);
        assert forall|i: int| 0 <= i < rest.len() implies list.contains(#[trigger] rest[i]) by {
            if i < earlier.len() {
                assert(shorter.contains(earlier[i]));
                let j = choose|j: int| 0 <= j < shorter.len() && shorter[j] == earlier[i];
                assert(list[j] == rest[i]);
            } else {
                assert(list[list.len() - 1] == rest[i]);
            }
        }
        if list.no_duplicates() {
            assert(shorter.no_duplicates());
            assert forall|i: int| 0 <= i < earlier.len() implies earlier[i] != list.last() by {
                assert(shorter.contains(earlier[i]));
                let j = choose|j: int| 0 <= j < shorter.len() && shorter[j] == earlier[i];
                assert(list[j] != list[list.len() - 1]);
            }
        }
    }
}

/// What a list of sorted columns without one holds.
proof fn lemma_without_order(list: Seq<(At, SortDir)>, at: At)
    ensures
        forall|i: int|
            0 <= i < without_order(list, at).len() ==> (#[trigger] without_order(list, at)[i]).0
                != at && list.contains(without_order(list, at)[i]),
        (forall|i: int, j: int|
            0 <= i < j < list.len() ==> (#[trigger] list[i]).0 != (#[trigger] list[j]).0) ==> (
        forall|i: int, j: int|
            0 <= i < j < without_order(list, at).len() ==> (#[trigger] without_order(
                list,
                at,
            )[i]).0 != (#[trigger] without_order(list, at)[j]).0),
    decreases list.len(),
{
    if list.len() > 0 {
        let shorter = list.drop_last();
        lemma_without_order(shorter, at);
        let earlier = without_order(shorter, at);
        let rest = without_order(list, at);
        assert forall|i: int| 0 <= i < rest.len() implies (#[trigger] rest[i]).0 != at
            && list.contains(rest[i]) by {
            if i < earlier.len() {
                assert(rest[i] == earlier[i]);
                assert(shorter.contains(earlier[i]));
                let j = choose|j: int| 0 <= j < shorter.len() && shorter[j] == earlier[i];
                assert(list[j] == rest[i]);
            } else {
                assert(list[list.len() - 1] == rest[i]);
            }
        }
        if forall|i: int, j: int|
            0 <= i < j < list.len() ==> (#[trigger] list[i]).0 != (#[trigger] list[j]).0 {
            assert forall|i: int, j: int| 0 <= i < j < shorter.len() implies (
            #[trigger] shorter[i]).0 != (#[trigger] shorter[j]).0 by {
                assert(list[i].0 != list[j].0);
            }
            assert forall|i: int, j: int| 0 <= i < j < rest.len() implies (#[trigger] rest[i]).0
                != (#[trigger] rest[j]).0 by {
                assert(rest[i] == earlier[i]);
                if j < earlier.len() {
                    assert(rest[j] == earlier[j]);
                } else {
                    assert(shorter.contains(earlier[i]));
                    let k = choose|k: int| 0 <= k < shorter.len() && shorter[k] == earlier[i];
                    assert(list[k].0 != list[list.len() - 1].0);
                }
            }
        }
    }
}

/// What a list with a column put in or taken out holds.
proof fn lemma_toggled(list: Seq<At>, at: At)
    requires
        list.no_duplicates(),
    ensures
        toggled_in(list, at).no_duplicates(),
        toggled_in(list, at).contains(at) == !list.contains(at),
        forall|other: At|
            other != at ==> #[trigger] toggled_in(list, at).contains(other) == list.contains(other),
{
    let after = toggled_in(list, at);
    if list.contains(at) {
        let place = place_of(list, at);
        let some = choose|i: int| 0 <= i < list.len() && list[i] == at;
        assert(forall|k: int| 0 <= k < some ==> #[trigger] list[k] != at) by {
            assert forall|k: int| 0 <= k < some implies #[trigger] list[k] != at by {
                assert(list[k] != list[some]);
            }
        }
        assert(0 <= place < list.len() && list[place] == at);
        assert forall|i: int| 0 <= i < after.len() implies (#[trigger] after[i]) == list[if i
            < place {
            i
        } else {
            i + 1
        }] by {}
        assert forall|i: int, j: int|
            0 <= i < after.len() && 0 <= j < after.len() && i != j implies after[i] != after[j] by {
            let was_i = if i < place {
                i
            } else {
                i + 1
            };
            let was_j = if j < place {
                j
            } else {
                j + 1
            };
            assert(list[was_i] != list[was_j]);
        }
        assert(!after.contains(at)) by {
            if after.contains(at) {
                let i = choose|i: int| 0 <= i < after.len() && after[i] == at;
                let was = if i < place {
                    i
                } else {
                    i + 1
                };
                assert(list[was] != list[place]);
            }
        }
        assert forall|other: At| other != at implies #[trigger] after.contains(other)
            == list.contains(other) by {
            if list.contains(other) {
                let i = choose|i: int| 0 <= i < list.len() && list[i] == other;
                let now = if i < place {
                    i
                } else {
                    i - 1
                };
                assert(after[now] == other);
            }
            if after.contains(other) {
                let i = choose|i: int| 0 <= i < after.len() && after[i] == other;
                let was = if i < place {
                    i
                } else {
                    i + 1
                };
                assert(list[was] == other);
            }
        }
    } else {
        assert(after.last() == at);
        assert(after[list.len() as int] == at);
        assert forall|other: At| other != at implies #[trigger] after.contains(other)
            == list.contains(other) by {
            if list.contains(other) {
                let i = choose|i: int| 0 <= i < list.len() && list[i] == other;
                assert(after[i] == other);
            }
            if after.contains(other) {
                let i = choose|i: int| 0 <= i < after.len() && after[i] == other;
                assert(list[i] == other);
            }
        }
        assert forall|i: int, j: int|
            0 <= i < after.len() && 0 <= j < after.len() && i != j implies after[i] != after[j] by {
            if i < list.len() && j < list.len() {
                assert(list[i] != list[j]);
            } else if i < list.len() {
                assert(list.contains(list[i]));
            } else {
                assert(list.contains(list[j]));
            }
        }
    }
}

/// Picking a column and taking it out again leaves the builder consistent: what
/// leaves the list takes its grouping and its sorting along.
pub proof fn toggling_a_column_stays_consistent(pane: BuilderText, at: At)
    requires
        consistent(pane),
    ensures
        consistent(with_toggled(pane, at)),
        with_toggled(pane, at).selected.contains(at) == !pane.selected.contains(at),
        pane.selected.contains(at) ==> !with_toggled(pane, at).group_by.contains(at),
{
    let after = with_toggled(pane, at);
    lemma_toggled(pane.selected, at);
    if pane.selected.contains(at) {
        lemma_without_column(pane.group_by, at);
        lemma_without_order(pane.order_by, at);
        assert forall|i: int| 0 <= i < after.group_by.len() implies after.selected.contains(
            #[trigger] after.group_by[i],
        ) by {
            let column = after.group_by[i];
            assert(pane.group_by.contains(column));
            let j = choose|j: int| 0 <= j < pane.group_by.len() && pane.group_by[j] == column;
            assert(pane.selected.contains(pane.group_by[j]));
            assert(column != at) by {
                if column == at {
                    assert(after.group_by.contains(at));
                }
            }
        }
        assert forall|i: int| 0 <= i < after.order_by.len() implies after.selected.contains(
            (#[trigger] after.order_by[i]).0,
        ) by {
            let term = after.order_by[i];
            assert(pane.order_by.contains(term));
            let j = choose|j: int| 0 <= j < pane.order_by.len() && pane.order_by[j] == term;
            assert(pane.selected.contains(pane.order_by[j].0));
        }
    } else {
        assert forall|i: int| 0 <= i < after.group_by.len() implies after.selected.contains(
            #[trigger] after.group_by[i],
        ) by {
            assert(pane.selected.contains(pane.group_by[i]));
        }
        assert forall|i: int| 0 <= i < after.order_by.len() implies after.selected.contains(
            (#[trigger] after.order_by[i]).0,
        ) by {
            assert(pane.selected.contains(pane.order_by[i].0));
        }
    }
}

/// Adding a table under an alias that is not taken leaves the builder consistent.
pub proof fn adding_a_table_stays_consistent(
    pane: BuilderText,
    target: ObjectTarget,
    alias: Seq<char>,
    columns: Seq<ErdColumnText>,
)
    requires
        consistent(pane),
        !aliases(pane.tables).contains(alias),
    ensures
        consistent(with_table(pane, target, alias, columns)),
{
    let after = with_table(pane, target, alias, columns);
    let before = aliases(pane.tables);
    assert(aliases(after.tables) =~= before.push(alias));
    assert forall|i: int, j: int|
        0 <= i < aliases(after.tables).len() && 0 <= j < aliases(after.tables).len() && i
            != j implies aliases(after.tables)[i] != aliases(after.tables)[j] by {
        if i < before.len() && j < before.len() {
            assert(before[i] != before[j]);
        } else if i < before.len() {
            assert(before.contains(before[i]));
        } else {
            assert(before.contains(before[j]));
        }
    }
    assert forall|i: int| 0 <= i < after.tables.len() implies (#[trigger] after.boxes[i]).name
        == after.tables[i].alias by {
        if i < pane.tables.len() {
            assert(pane.boxes[i].name == pane.tables[i].alias);
        }
    }
}

/// A join drawn again, or back the other way, is the join that is there; and
/// joining leaves the builder consistent.
pub proof fn a_join_is_drawn_once(pane: BuilderText, from: At, to: At)
    requires
        consistent(pane),
    ensures
        consistent(with_join(pane, from, to)),
        with_join(with_join(pane, from, to), from, to) == with_join(pane, from, to),
        with_join(with_join(pane, from, to), to, from) == with_join(pane, from, to),
{
    let after = with_join(pane, from, to);
    if are_joined(pane.joins, from, to) {
        let i = choose|i: int| 0 <= i < pane.joins.len() && relates(pane.joins[i], from, to);
        assert(relates(pane.joins[i], to, from));
    } else {
        assert(relates(after.joins[pane.joins.len() as int], from, to));
        assert(relates(after.joins[pane.joins.len() as int], to, from));
        assert forall|i: int, j: int| 0 <= i < j < after.joins.len() implies !relates(
            #[trigger] after.joins[j],
            (#[trigger] after.joins[i]).from,
            after.joins[i].to,
        ) by {
            if j == pane.joins.len() {
                assert(!relates(pane.joins[i], from, to));
            } else {
                assert(!relates(pane.joins[j], pane.joins[i].from, pane.joins[i].to));
            }
        }
    }
}

/// Grouping and sorting by picked columns leaves the builder consistent, and a
/// column is sorted by one way at most.
pub proof fn grouping_and_sorting_stay_consistent(
    pane: BuilderText,
    at: At,
    direction: Option<SortDir>,
)
    requires
        consistent(pane),
        pane.selected.contains(at),
    ensures
        consistent((BuilderText { group_by: toggled_in(pane.group_by, at), ..pane })),
        consistent(with_order(pane, at, direction)),
{
    lemma_toggled(pane.group_by, at);
    let grouped = BuilderText { group_by: toggled_in(pane.group_by, at), ..pane };
    assert forall|i: int| 0 <= i < grouped.group_by.len() implies grouped.selected.contains(
        #[trigger] grouped.group_by[i],
    ) by {
        let column = grouped.group_by[i];
        assert(grouped.group_by.contains(column));
        if column != at {
            assert(pane.group_by.contains(column));
            let j = choose|j: int| 0 <= j < pane.group_by.len() && pane.group_by[j] == column;
            assert(pane.selected.contains(pane.group_by[j]));
        }
    }
    lemma_without_order(pane.order_by, at);
    let rest = without_order(pane.order_by, at);
    let sorted = with_order(pane, at, direction);
    assert forall|i: int| 0 <= i < sorted.order_by.len() implies sorted.selected.contains(
        (#[trigger] sorted.order_by[i]).0,
    ) by {
        if i < rest.len() {
            assert(sorted.order_by[i] == rest[i]);
            assert(pane.order_by.contains(rest[i]));
            let j = choose|j: int| 0 <= j < pane.order_by.len() && pane.order_by[j] == rest[i];
            assert(pane.selected.contains(pane.order_by[j].0));
        }
    }
    assert forall|i: int, j: int| 0 <= i < j < sorted.order_by.len() implies (
    #[trigger] sorted.order_by[i]).0 != (#[trigger] sorted.order_by[j]).0 by {
        assert(sorted.order_by[i] == rest[i]);
        if j < rest.len() {
            assert(sorted.order_by[j] == rest[j]);
        }
    }
}

} // verus!
