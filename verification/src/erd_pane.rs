//! The diagram panel: one schema's tables and the foreign keys between them.
//!
//! What is asked of the catalogue, how the answers become boxes and lines, and
//! what the panel shows while they come. The tables and the columns of a scope
//! are one request each; the primary and the imported keys are one each per
//! table; the exported keys are the same lines seen from the other end and are
//! never asked for.

use vstd::prelude::*;

use crate::ordered::TextMap;
use crate::sorting::{key_texts, places, sort_places, stable_order, KeyText, SortKey};
use crate::text::{
    as_text, blank, chars_of, is_blank, join, joined, maybe_text, same_text, texts,
};
use crate::view::{plain, with, Button, ButtonVariant, Label, LabelText, Tone};

verus! {

/// The one kind of table a diagram is drawn from.
pub const TABLE_TYPE: &'static str = "TABLE";

/// Which connection a panel asks.
#[derive(Clone, Copy, Debug, PartialEq, Eq, Structural)]
pub struct ConnectionId(pub u64);

/// A catalogue and a schema, either of which may be absent.
#[derive(Clone, Debug, PartialEq, Eq)]
pub struct Scope {
    pub catalog: Option<String>,
    pub schema: Option<String>,
}

impl Default for Scope {
    fn default() -> (r: Self)
        ensures
            r.catalog is None,
            r.schema is None,
    {
        Scope { catalog: None, schema: None }
    }
}

/// What one diagram is drawn over: a connection, and a scope inside it.
#[derive(Clone, Debug, PartialEq, Eq)]
pub struct ErdTarget {
    pub connection: ConnectionId,
    pub scope: Scope,
}

/// A part of a name, as a list of what there is of it: a blank part is none.
pub open spec fn part_list(part: Option<Seq<char>>) -> Seq<Seq<char>> {
    match part {
        Some(text) => if is_blank(text) {
            Seq::empty()
        } else {
            seq![text]
        },
        None => Seq::empty(),
    }
}

/// The scope as it reads in a title: `catalog.schema`, or whichever half there is.
pub open spec fn qualified_scope(scope: Scope) -> Seq<char> {
    join(part_list(maybe_text(scope.catalog)) + part_list(maybe_text(scope.schema)), "."@)
}

/// A character of a file name: a separator becomes an underscore.
pub open spec fn file_char(c: char) -> char {
    if c == '.' || c == '/' || c == '\\' || c == ':' {
        '_'
    } else {
        c
    }
}

/// The name an exported file is suggested under.
pub open spec fn stem_of(scope: Seq<char>) -> Seq<char> {
    if scope.len() == 0 {
        "diagram"@
    } else {
        scope.map_values(|c: char| file_char(c))
    }
}

/// Adds a part of a name, where it says something.
fn push_part(parts: &mut Vec<String>, part: &Option<String>)
    ensures
        texts(final(parts)@) == texts(old(parts)@) + part_list(maybe_text(*part)),
{
    let ghost before = texts(parts@);
    match as_text(part) {
        Some(text) => {
            if !blank(text) {
                parts.push(text.to_owned());
            }
        },
        None => {},
    }
    assert(texts(parts@) =~= before + part_list(maybe_text(*part)));
}

impl ErdTarget {
    /// The scope as it reads in a title.
    pub fn qualified(&self) -> (r: String)
        ensures
            r@ == qualified_scope(self.scope),
    {
        let mut parts: Vec<String> = Vec::new();
        push_part(&mut parts, &self.scope.catalog);
        push_part(&mut parts, &self.scope.schema);
        assert(texts(parts@) =~= part_list(maybe_text(self.scope.catalog)) + part_list(
            maybe_text(self.scope.schema),
        ));
        joined(&parts, ".")
    }

    /// The title its tab carries. A scope that names nothing gets the bare word.
    pub fn title(&self) -> (r: Label)
        ensures
            r@ == title_of(self.scope),
    {
        let scope = self.qualified();
        if scope.as_str().is_empty() {
            Label::plain("erd.tab_all")
        } else {
            Label::with("erd.tab", "scope", scope.as_str())
        }
    }

    /// The name an exported file is suggested under: never translated, and
    /// stripped of separators.
    pub fn file_stem(&self) -> (r: String)
        ensures
            r@ == stem_of(qualified_scope(self.scope)),
    {
        let scope = self.qualified();
        if scope.as_str().is_empty() {
            return "diagram".to_owned();
        }
        let chars = chars_of(scope.as_str());
        let mut out = String::new();
        let mut i: usize = 0;
        proof {
            reveal_strlit("_");
            assert("_"@ =~= seq!['_']);
        }
        while i < chars.len()
            invariant
                i <= chars@.len(),
                chars@ == scope@,
                "_"@ == seq!['_'],
                out@ == scope@.take(i as int).map_values(|c: char| file_char(c)),
            decreases chars.len() - i,
        {
            let ghost before = out@;
            let c: char = chars[i];
            if c == '.' || c == '/' || c == '\\' || c == ':' {
                out.append("_");
            } else {
                out.append(scope.as_str().substring_char(i, i + 1));
            }
            assert(out@ =~= before.push(file_char(c)));
            assert(scope@.take(i + 1).map_values(|c: char| file_char(c)) =~= out@);
            i = i + 1;
        }
        assert(scope@.take(scope@.len() as int) =~= scope@);
        out
    }
}

/// The title of a diagram's tab.
pub open spec fn title_of(scope: Scope) -> LabelText {
    if qualified_scope(scope).len() == 0 {
        plain("erd.tab_all")
    } else {
        with("erd.tab", "scope", qualified_scope(scope))
    }
}

/// What is asked of the catalogue.
#[derive(Clone, Copy, Debug, PartialEq, Eq, Structural)]
pub enum DescribeKind {
    Tables,
    Columns,
    PrimaryKeys,
    ImportedKeys,
}

/// One request of the catalogue.
#[derive(Debug)]
pub struct DescribeRequest {
    pub kind: DescribeKind,
    pub catalog: Option<String>,
    pub schema: Option<String>,
    pub table: Option<String>,
    pub types: Option<&'static str>,
}

/// One request of the catalogue.
#[verifier::ext_equal]
pub ghost struct RequestText {
    pub kind: DescribeKind,
    pub catalog: Option<Seq<char>>,
    pub schema: Option<Seq<char>>,
    pub table: Option<Seq<char>>,
    pub types: Option<&'static str>,
}

impl View for DescribeRequest {
    type V = RequestText;

    open spec fn view(&self) -> RequestText {
        RequestText {
            kind: self.kind,
            catalog: maybe_text(self.catalog),
            schema: maybe_text(self.schema),
            table: maybe_text(self.table),
            types: self.types,
        }
    }
}

/// A request about a scope, or about one table of it.
pub open spec fn scoped(scope: Scope, kind: DescribeKind, table: Option<Seq<char>>) -> RequestText {
    RequestText {
        kind,
        catalog: maybe_text(scope.catalog),
        schema: maybe_text(scope.schema),
        table,
        types: if kind == DescribeKind::Tables {
            Some(TABLE_TYPE)
        } else {
            None
        },
    }
}

/// The requests that follow the list of tables: the columns of the whole scope
/// once, then the two kinds of keys of each table.
pub open spec fn later_requests(scope: Scope, names: Seq<Seq<char>>) -> Seq<RequestText>
    decreases names.len(),
{
    if names.len() == 0 {
        seq![scoped(scope, DescribeKind::Columns, None)]
    } else {
        later_requests(scope, names.drop_last()).push(
            scoped(scope, DescribeKind::PrimaryKeys, Some(names.last())),
        ).push(scoped(scope, DescribeKind::ImportedKeys, Some(names.last())))
    }
}

/// The requests of a list.
pub open spec fn request_texts(list: Seq<DescribeRequest>) -> Seq<RequestText> {
    list.map_values(|r: DescribeRequest| r@)
}

/// A copy of an optional text.
pub fn copy_part(part: &Option<String>) -> (r: Option<String>)
    ensures
        r == *part,
{
    match part {
        Some(text) => Some(text.clone()),
        None => None,
    }
}

/// The request for the tables of a scope.
pub fn tables_request(scope: &Scope) -> (r: DescribeRequest)
    ensures
        r@ == scoped(*scope, DescribeKind::Tables, None),
{
    DescribeRequest {
        kind: DescribeKind::Tables,
        catalog: copy_part(&scope.catalog),
        schema: copy_part(&scope.schema),
        table: None,
        types: Some(TABLE_TYPE),
    }
}

/// The requests that follow the list of tables, in the order they are sent.
pub fn requests_after(scope: &Scope, names: &Vec<String>) -> (r: Vec<DescribeRequest>)
    ensures
        request_texts(r@) == later_requests(*scope, texts(names@)),
        r@.len() == 1 + 2 * names@.len(),
{
    let mut out: Vec<DescribeRequest> = Vec::new();
    out.push(
        DescribeRequest {
            kind: DescribeKind::Columns,
            catalog: copy_part(&scope.catalog),
            schema: copy_part(&scope.schema),
            table: None,
            types: None,
        },
    );
    assert(request_texts(out@) =~= later_requests(*scope, texts(names@).take(0)));
    let mut i: usize = 0;
    while i < names.len()
        invariant
            i <= names@.len(),
            request_texts(out@) == later_requests(*scope, texts(names@).take(i as int)),
            out@.len() == 1 + 2 * i,
        decreases names.len() - i,
    {
        let ghost next = texts(names@).take(i + 1);
        assert(next.drop_last() =~= texts(names@).take(i as int));
        assert(next.last() == names@[i as int]@);
        out.push(
            DescribeRequest {
                kind: DescribeKind::PrimaryKeys,
                catalog: copy_part(&scope.catalog),
                schema: copy_part(&scope.schema),
                table: Some(names[i].clone()),
                types: None,
            },
        );
        out.push(
            DescribeRequest {
                kind: DescribeKind::ImportedKeys,
                catalog: copy_part(&scope.catalog),
                schema: copy_part(&scope.schema),
                table: Some(names[i].clone()),
                types: None,
            },
        );
        assert(request_texts(out@) =~= later_requests(*scope, next));
        i = i + 1;
    }
    assert(texts(names@).take(names@.len() as int) =~= texts(names@));
    out
}

/// Nothing but the columns of the scope and the keys of its tables is asked for
/// after the tables: the columns once, and every key request about one of the
/// tables.
pub proof fn what_is_asked(scope: Scope, names: Seq<Seq<char>>)
    ensures
        later_requests(scope, names).len() == 1 + 2 * names.len(),
        later_requests(scope, names)[0] == scoped(scope, DescribeKind::Columns, None),
        forall|i: int|
            0 <= i < names.len() ==> {
                &&& #[trigger] later_requests(scope, names)[1 + 2 * i] == scoped(
                    scope,
                    DescribeKind::PrimaryKeys,
                    Some(names[i]),
                )
                &&& later_requests(scope, names)[2 + 2 * i] == scoped(
                    scope,
                    DescribeKind::ImportedKeys,
                    Some(names[i]),
                )
            },
    decreases names.len(),
{
    if names.len() > 0 {
        let fewer = names.drop_last();
        what_is_asked(scope, fewer);
        assert forall|i: int| 0 <= i < names.len() implies {
            &&& #[trigger] later_requests(scope, names)[1 + 2 * i] == scoped(
                scope,
                DescribeKind::PrimaryKeys,
                Some(names[i]),
            )
            &&& later_requests(scope, names)[2 + 2 * i] == scoped(
                scope,
                DescribeKind::ImportedKeys,
                Some(names[i]),
            )
        } by {
            if i < fewer.len() {
                assert(later_requests(scope, fewer)[1 + 2 * i] == scoped(
                    scope,
                    DescribeKind::PrimaryKeys,
                    Some(fewer[i]),
                ));
                assert(fewer[i] == names[i]);
            }
        }
    }
}

/// Whether `list` holds exactly the names of `reported`, in dictionary order and
/// each once.
pub open spec fn is_table_list(list: Seq<Seq<char>>, reported: Seq<Option<String>>) -> bool {
    &&& forall|i: int, j: int|
        0 <= i < j < list.len() ==> crate::ordered::text_less(#[trigger] list[i], #[trigger] list[j])
    &&& forall|name: Seq<char>| #[trigger]
        list.contains(name) <==> exists|i: int|
            0 <= i < reported.len() && maybe_text(#[trigger] reported[i]) == Some(name)
}

/// The tables a diagram has: the names that were reported, in dictionary order
/// and each once. A driver that lists one table under two types would otherwise
/// draw it twice.
pub fn table_names(reported: &Vec<Option<String>>) -> (r: Vec<String>)
    ensures
        is_table_list(texts(r@), reported@),
{
    let mut seen: TextMap<bool> = TextMap::new();
    let mut i: usize = 0;
    while i < reported.len()
        invariant
            i <= reported@.len(),
            forall|name: Seq<char>| #[trigger]
                seen@.dom().contains(name) <==> exists|k: int|
                    0 <= k < i && maybe_text(#[trigger] reported@[k]) == Some(name),
        decreases reported.len() - i,
    {
        let ghost before = seen@;
        match &reported[i] {
            Some(name) => {
                seen.insert(name.clone(), true);
            },
            None => {},
        }
        assert forall|name: Seq<char>| #[trigger]
            seen@.dom().contains(name) <==> exists|k: int|
                0 <= k < i + 1 && maybe_text(#[trigger] reported@[k]) == Some(name) by {
            if seen@.dom().contains(name) {
                if before.dom().contains(name) {
                    let k = choose|k: int| 0 <= k < i && maybe_text(#[trigger] reported@[k]) == Some(name);
                    assert(maybe_text(reported@[k]) == Some(name));
                } else {
                    assert(maybe_text(reported@[i as int]) == Some(name));
                }
            }
            if exists|k: int| 0 <= k < i + 1 && maybe_text(#[trigger] reported@[k]) == Some(name) {
                let k = choose|k: int| 0 <= k < i + 1 && maybe_text(#[trigger] reported@[k]) == Some(name);
                if k < i {
                    assert(before.dom().contains(name));
                }
            }
        }
        i = i + 1;
    }
    let entries = seen.entries();
    let mut out: Vec<String> = Vec::new();
    let mut k: usize = 0;
    while k < entries.len()
        invariant
            k <= entries@.len(),
            out@.len() == k,
            forall|j: int| 0 <= j < k ==> (#[trigger] out@[j])@ == entries@[j].0@,
        decreases entries.len() - k,
    {
        out.push(entries[k].0.clone());
        k = k + 1;
    }
    proof {
        let list = texts(out@);
        assert forall|i: int, j: int| 0 <= i < j < list.len() implies crate::ordered::text_less(
            #[trigger] list[i],
            #[trigger] list[j],
        ) by {
            assert(crate::ordered::text_less(entries@[i].0@, entries@[j].0@));
            assert(out@[i]@ == entries@[i].0@);
            assert(out@[j]@ == entries@[j].0@);
        }
        assert forall|name: Seq<char>| #[trigger] list.contains(name) <==> seen@.dom().contains(name) by {
            if list.contains(name) {
                let i = choose|i: int| 0 <= i < list.len() && list[i] == name;
                assert(out@[i]@ == entries@[i].0@);
                assert(entries@[i].0@ == name);
            }
            if seen@.dom().contains(name) {
                let i = choose|i: int| 0 <= i < entries@.len() && (#[trigger] entries@[i]).0@ == name;
                assert(out@[i]@ == entries@[i].0@);
                assert(list[i] == name);
            }
        }
    }
    out
}

/// One column of the scope, as the catalogue reports it.
#[derive(Debug)]
pub struct ColumnItem {
    pub table: Option<String>,
    pub name: Option<String>,
    pub ordinal: Option<i64>,
    pub type_text: String,
    pub nullable: Option<bool>,
}

/// One column of the scope.
#[verifier::ext_equal]
pub ghost struct ColumnItemText {
    pub table: Option<Seq<char>>,
    pub name: Option<Seq<char>>,
    pub ordinal: Option<i64>,
    pub type_text: Seq<char>,
    pub nullable: Option<bool>,
}

impl View for ColumnItem {
    type V = ColumnItemText;

    open spec fn view(&self) -> ColumnItemText {
        ColumnItemText {
            table: maybe_text(self.table),
            name: maybe_text(self.name),
            ordinal: self.ordinal,
            type_text: self.type_text@,
            nullable: self.nullable,
        }
    }
}

/// The columns of a list.
pub open spec fn column_items(list: Seq<ColumnItem>) -> Seq<ColumnItemText> {
    list.map_values(|c: ColumnItem| c@)
}

/// One column of a foreign key, as the catalogue reports it.
#[derive(Debug)]
pub struct ImportedKey {
    pub pk_catalog: Option<String>,
    pub pk_schema: Option<String>,
    pub pk_table: Option<String>,
    pub pk_column: Option<String>,
    pub fk_column: Option<String>,
    pub fk_name: Option<String>,
    pub seq: Option<i64>,
}

/// One column of a foreign key.
#[verifier::ext_equal]
pub ghost struct ImportedText {
    pub pk_catalog: Option<Seq<char>>,
    pub pk_schema: Option<Seq<char>>,
    pub pk_table: Option<Seq<char>>,
    pub pk_column: Option<Seq<char>>,
    pub fk_column: Option<Seq<char>>,
    pub fk_name: Option<Seq<char>>,
    pub seq: Option<i64>,
}

impl View for ImportedKey {
    type V = ImportedText;

    open spec fn view(&self) -> ImportedText {
        ImportedText {
            pk_catalog: maybe_text(self.pk_catalog),
            pk_schema: maybe_text(self.pk_schema),
            pk_table: maybe_text(self.pk_table),
            pk_column: maybe_text(self.pk_column),
            fk_column: maybe_text(self.fk_column),
            fk_name: maybe_text(self.fk_name),
            seq: self.seq,
        }
    }
}

/// The key columns of a list.
pub open spec fn imported_texts(list: Seq<ImportedKey>) -> Seq<ImportedText> {
    list.map_values(|k: ImportedKey| k@)
}

/// Whether one half of a scope admits what was reported: a half the scope does
/// not name, or the catalogue does not report, is not compared.
pub open spec fn half_matches(wanted: Option<Seq<char>>, reported: Option<Seq<char>>) -> bool {
    wanted is Some && reported is Some ==> wanted == reported
}

/// Whether the table a key column points at is inside the scope.
pub open spec fn key_in_scope(row: ImportedText, scope: Scope) -> bool {
    half_matches(maybe_text(scope.catalog), row.pk_catalog) && half_matches(
        maybe_text(scope.schema),
        row.pk_schema,
    )
}

/// Whether two optional texts are the same.
fn same_part(a: &Option<String>, b: &Option<String>) -> (r: bool)
    ensures
        r == (maybe_text(*a) == maybe_text(*b)),
{
    match (as_text(a), as_text(b)) {
        (None, None) => true,
        (Some(x), Some(y)) => same_text(x, y),
        _ => false,
    }
}

/// Whether the table an imported key points at is inside `scope`. A half the
/// scope does not name is not compared.
pub fn in_scope(row: &ImportedKey, scope: &Scope) -> (r: bool)
    ensures
        r == key_in_scope(row@, *scope),
{
    let catalog = scope.catalog.is_none() || row.pk_catalog.is_none() || same_part(
        &scope.catalog,
        &row.pk_catalog,
    );
    let schema = scope.schema.is_none() || row.pk_schema.is_none() || same_part(
        &scope.schema,
        &row.pk_schema,
    );
    catalog && schema
}

/// The columns of one constraint, before they have been put in key order: the
/// place in the key, the column, and the column it references.
#[verifier::ext_equal]
pub ghost struct GroupText {
    pub name: Option<Seq<char>>,
    pub to: Seq<char>,
    pub pairs: Seq<(i64, Seq<char>, Seq<char>)>,
}

struct Group {
    name: Option<String>,
    to: String,
    pairs: Vec<(i64, String, String)>,
}

/// The pairs of a list.
pub open spec fn pair_texts(list: Seq<(i64, String, String)>) -> Seq<(i64, Seq<char>, Seq<char>)> {
    list.map_values(|p: (i64, String, String)| (p.0, p.1@, p.2@))
}

impl View for Group {
    type V = GroupText;

    closed spec fn view(&self) -> GroupText {
        GroupText { name: maybe_text(self.name), to: self.to@, pairs: pair_texts(self.pairs@) }
    }
}

/// The groups of a list.
spec fn group_texts(list: Seq<Group>) -> Seq<GroupText> {
    list.map_values(|g: Group| g@)
}

/// The place in the key a row reports; one that reports none comes last.
pub open spec fn seq_of(row: ImportedText) -> i64 {
    match row.seq {
        Some(seq) => seq,
        None => i64::MAX,
    }
}

/// Whether a row says enough to draw a line, and points inside the scope.
pub open spec fn row_counts(row: ImportedText, scope: Scope) -> bool {
    row.pk_table is Some && row.pk_column is Some && row.fk_column is Some && key_in_scope(row, scope)
}

/// The groups once a row joined the first that has its constraint name and its
/// table, or started one of its own.
pub open spec fn with_row(groups: Seq<GroupText>, row: ImportedText) -> Seq<GroupText>
    decreases groups.len(),
{
    let pair = (seq_of(row), row.fk_column.unwrap(), row.pk_column.unwrap());
    if groups.len() == 0 {
        seq![GroupText { name: row.fk_name, to: row.pk_table.unwrap(), pairs: seq![pair] }]
    } else if groups[0].name == row.fk_name && groups[0].to == row.pk_table.unwrap() {
        groups.update(0, GroupText { pairs: groups[0].pairs.push(pair), ..groups[0] })
    } else {
        seq![groups[0]] + with_row(groups.subrange(1, groups.len() as int), row)
    }
}

/// The rows grouped by constraint: by its name and by the table it references.
pub open spec fn groups_of(rows: Seq<ImportedText>, scope: Scope) -> Seq<GroupText>
    decreases rows.len(),
{
    if rows.len() == 0 {
        Seq::empty()
    } else {
        let before = groups_of(rows.drop_last(), scope);
        if row_counts(rows.last(), scope) {
            with_row(before, rows.last())
        } else {
            before
        }
    }
}

/// What a group is ordered by: the table it references, then its name.
pub open spec fn group_key(group: GroupText) -> KeyText {
    KeyText { number: 0, first: Some(group.to), second: group.name }
}

/// What a column of a key is ordered by: its place in the key, then its name.
pub open spec fn pair_key(pair: (i64, Seq<char>, Seq<char>)) -> KeyText {
    KeyText { number: pair.0 as int, first: Some(pair.1), second: None }
}

/// The columns of a group in key order, each with the column it references.
pub open spec fn ordered_pairs(pairs: Seq<(i64, Seq<char>, Seq<char>)>) -> Seq<(Seq<char>, Seq<char>)> {
    let order = stable_order(pairs.map_values(|p: (i64, Seq<char>, Seq<char>)| pair_key(p)));
    order.map_values(|i: int| (pairs[i].1, pairs[i].2))
}

/// One foreign key of one table, before its ends have been resolved.
#[derive(Debug, PartialEq, Eq)]
pub struct Edge {
    /// The constraint name, when the driver reported one.
    pub name: Option<String>,
    /// The table holding the key.
    pub from: String,
    /// The table it references.
    pub to: String,
    /// The key's columns in order, each with the column it references.
    pub columns: Vec<(String, String)>,
}

/// One foreign key of one table.
#[verifier::ext_equal]
pub ghost struct EdgeText {
    pub name: Option<Seq<char>>,
    pub from: Seq<char>,
    pub to: Seq<char>,
    pub columns: Seq<(Seq<char>, Seq<char>)>,
}

/// The pairs of a list.
pub open spec fn column_pairs(list: Seq<(String, String)>) -> Seq<(Seq<char>, Seq<char>)> {
    list.map_values(|p: (String, String)| (p.0@, p.1@))
}

impl View for Edge {
    type V = EdgeText;

    open spec fn view(&self) -> EdgeText {
        EdgeText {
            name: maybe_text(self.name),
            from: self.from@,
            to: self.to@,
            columns: column_pairs(self.columns@),
        }
    }
}

/// The edges of a list.
pub open spec fn edge_texts(list: Seq<Edge>) -> Seq<EdgeText> {
    list.map_values(|e: Edge| e@)
}

/// The edge a group becomes.
pub open spec fn edge_of(table: Seq<char>, group: GroupText) -> EdgeText {
    EdgeText { name: group.name, from: table, to: group.to, columns: ordered_pairs(group.pairs) }
}

/// One edge per constraint of a table, ordered by the table referenced and then
/// by the constraint's name.
pub open spec fn table_edges(table: Seq<char>, rows: Seq<ImportedText>, scope: Scope) -> Seq<EdgeText> {
    let groups = groups_of(rows, scope);
    let order = stable_order(groups.map_values(|g: GroupText| group_key(g)));
    order.map_values(|i: int| edge_of(table, groups[i]))
}

/// Puts a row into the groups.
fn add_row(groups: &mut Vec<Group>, row: &ImportedKey)
    requires
        row@.pk_table is Some,
        row@.pk_column is Some,
        row@.fk_column is Some,
    ensures
        group_texts(final(groups)@) == with_row(group_texts(old(groups)@), row@),
{
    let ghost before = groups@;
    let seq: i64 = match row.seq {
        Some(seq) => seq,
        None => i64::MAX,
    };
    let fk_column = row.fk_column.as_ref().unwrap().clone();
    let pk_column = row.pk_column.as_ref().unwrap().clone();
    let pk_table = row.pk_table.as_ref().unwrap().clone();
    let ghost pair = (seq, fk_column@, pk_column@);
    let mut i: usize = 0;
    assert(group_texts(before).subrange(0, before.len() as int) =~= group_texts(before));
    assert(group_texts(before).take(0) + with_row(group_texts(before), row@) =~= with_row(
        group_texts(before),
        row@,
    ));
    while i < groups.len()
        invariant
            i <= groups@.len(),
            groups@ == before,
            before == old(groups)@,
            row@.pk_table is Some,
            row@.pk_column is Some,
            row@.fk_column is Some,
            pk_table@ == row@.pk_table.unwrap(),
            fk_column@ == row@.fk_column.unwrap(),
            pk_column@ == row@.pk_column.unwrap(),
            seq == seq_of(row@),
            pair == (seq, fk_column@, pk_column@),
            with_row(group_texts(before), row@) == group_texts(before).take(i as int) + with_row(
                group_texts(before).subrange(i as int, before.len() as int),
                row@,
            ),
        decreases groups.len() - i,
    {
        let ghost all = group_texts(before);
        let ghost rest = all.subrange(i as int, before.len() as int);
        assert(rest[0] == groups@[i as int]@);
        if same_part(&groups[i].name, &row.fk_name) && same_text(
            groups[i].to.as_str(),
            pk_table.as_str(),
        ) {
            let mut group = groups.remove(i);
            let ghost old_group = group@;
            group.pairs.push((seq, fk_column, pk_column));
            assert(group@.pairs =~= old_group.pairs.push(pair));
            groups.insert(i, group);
            proof {
                assert(group_texts(groups@) =~= all.update(i as int, group@));
                assert(with_row(rest, row@) =~= rest.update(0, group@));
                assert(all.take(i as int) + rest.update(0, group@) =~= all.update(i as int, group@));
            }
            return;
        }
        proof {
            assert(rest.subrange(1, rest.len() as int) =~= all.subrange(i + 1, before.len() as int));
            let tail = with_row(all.subrange(i + 1, before.len() as int), row@);
            assert(all.take(i as int) + (seq![rest[0]] + tail) =~= all.take(i + 1) + tail);
        }
        i = i + 1;
    }
    let mut pairs: Vec<(i64, String, String)> = Vec::new();
    pairs.push((seq, fk_column, pk_column));
    assert(pair_texts(pairs@) =~= seq![pair]);
    let group = Group { name: copy_part(&row.fk_name), to: pk_table, pairs };
    let ghost all = group_texts(before);
    assert(all.subrange(before.len() as int, before.len() as int) =~= Seq::<GroupText>::empty());
    assert(all.take(before.len() as int) =~= all);
    groups.push(group);
    assert(group_texts(groups@) =~= all + seq![group@]);
}

/// The columns of a group in key order.
fn pairs_in_order(pairs: &Vec<(i64, String, String)>) -> (r: Vec<(String, String)>)
    ensures
        column_pairs(r@) == ordered_pairs(pair_texts(pairs@)),
{
    let ghost listed = pair_texts(pairs@);
    let ghost wanted = listed.map_values(|p: (i64, Seq<char>, Seq<char>)| pair_key(p));
    let mut keys: Vec<SortKey> = Vec::new();
    let mut i: usize = 0;
    while i < pairs.len()
        invariant
            i <= pairs@.len(),
            keys@.len() == i,
            listed == pair_texts(pairs@),
            forall|k: int| 0 <= k < i ==> (#[trigger] keys@[k])@ == pair_key(listed[k]),
        decreases pairs.len() - i,
    {
        keys.push(SortKey { number: pairs[i].0, first: Some(pairs[i].1.clone()), second: None });
        i = i + 1;
    }
    assert(key_texts(keys@) =~= wanted);
    let order = sort_places(&keys);
    let mut out: Vec<(String, String)> = Vec::new();
    let mut n: usize = 0;
    while n < order.len()
        invariant
            n <= order@.len(),
            out@.len() == n,
            order@.len() == pairs@.len(),
            listed == pair_texts(pairs@),
            forall|a: int| 0 <= a < order@.len() ==> #[trigger] order@[a] < pairs@.len(),
            forall|k: int|
                0 <= k < n ==> (#[trigger] out@[k]).0@ == listed[order@[k] as int].1 && out@[k].1@
                    == listed[order@[k] as int].2,
        decreases order.len() - n,
    {
        let at: usize = order[n];
        out.push((pairs[at].1.clone(), pairs[at].2.clone()));
        n = n + 1;
    }
    proof {
        let result = ordered_pairs(listed);
        assert(result.len() == order@.len());
        assert forall|k: int| 0 <= k < result.len() implies column_pairs(out@)[k] == result[k] by {
            assert(places(order@)[k] == order@[k] as int);
            assert(out@[k].0@ == listed[order@[k] as int].1);
        }
        assert(column_pairs(out@) =~= result);
    }
    out
}

/// Groups one table's imported keys into one edge per constraint.
///
/// A composite key arrives as several rows that only the constraint's name and
/// the place in the key tie together. A driver that reports no name is grouped by
/// the table pair instead. A reference into another schema is dropped: two
/// schemas routinely hold a table of the same name.
pub fn edges_of(table: &str, rows: &Vec<ImportedKey>, scope: &Scope) -> (r: Vec<Edge>)
    ensures
        edge_texts(r@) == table_edges(table@, imported_texts(rows@), *scope),
{
    let ghost listed = imported_texts(rows@);
    let mut groups: Vec<Group> = Vec::new();
    let mut i: usize = 0;
    assert(group_texts(groups@) =~= groups_of(listed.take(0), *scope));
    while i < rows.len()
        invariant
            i <= rows@.len(),
            listed == imported_texts(rows@),
            group_texts(groups@) == groups_of(listed.take(i as int), *scope),
        decreases rows.len() - i,
    {
        let ghost next = listed.take(i + 1);
        assert(next.drop_last() =~= listed.take(i as int));
        assert(next.last() == rows@[i as int]@);
        let row = &rows[i];
        if row.pk_table.is_some() && row.pk_column.is_some() && row.fk_column.is_some() && in_scope(
            row,
            scope,
        ) {
            add_row(&mut groups, row);
        }
        i = i + 1;
    }
    assert(listed.take(listed.len() as int) =~= listed);
    let ghost grouped = group_texts(groups@);
    let ghost wanted = grouped.map_values(|g: GroupText| group_key(g));
    let mut keys: Vec<SortKey> = Vec::new();
    let mut k: usize = 0;
    while k < groups.len()
        invariant
            k <= groups@.len(),
            keys@.len() == k,
            grouped == group_texts(groups@),
            forall|j: int| 0 <= j < k ==> (#[trigger] keys@[j])@ == group_key(grouped[j]),
        decreases groups.len() - k,
    {
        keys.push(
            SortKey {
                number: 0,
                first: Some(groups[k].to.clone()),
                second: copy_part(&groups[k].name),
            },
        );
        k = k + 1;
    }
    assert(key_texts(keys@) =~= wanted);
    let order = sort_places(&keys);
    let mut out: Vec<Edge> = Vec::new();
    let mut n: usize = 0;
    while n < order.len()
        invariant
            n <= order@.len(),
            out@.len() == n,
            order@.len() == groups@.len(),
            grouped == group_texts(groups@),
            forall|a: int| 0 <= a < order@.len() ==> #[trigger] order@[a] < groups@.len(),
            forall|j: int|
                0 <= j < n ==> (#[trigger] out@[j])@ == edge_of(table@, grouped[order@[j] as int]),
        decreases order.len() - n,
    {
        let group = &groups[order[n]];
        let edge = Edge {
            name: copy_part(&group.name),
            from: table.to_owned(),
            to: group.to.clone(),
            columns: pairs_in_order(&group.pairs),
        };
        assert(edge@ =~= edge_of(table@, group@));
        out.push(edge);
        n = n + 1;
    }
    proof {
        let result = table_edges(table@, listed, *scope);
        assert(result.len() == order@.len());
        assert forall|j: int| 0 <= j < result.len() implies edge_texts(out@)[j] == result[j] by {
            assert(places(order@)[j] == order@[j] as int);
            assert(out@[j]@ == edge_of(table@, grouped[order@[j] as int]));
        }
        assert(edge_texts(out@) =~= result);
    }
    out
}

/// One column of a box.
#[derive(Clone, Debug, PartialEq, Eq)]
pub struct ErdColumn {
    pub name: String,
    pub type_text: String,
    pub nullable: bool,
    pub primary_key: bool,
    pub foreign_key: bool,
}

/// One column of a box.
#[verifier::ext_equal]
pub ghost struct ErdColumnText {
    pub name: Seq<char>,
    pub type_text: Seq<char>,
    pub nullable: bool,
    pub primary_key: bool,
    pub foreign_key: bool,
}

impl View for ErdColumn {
    type V = ErdColumnText;

    open spec fn view(&self) -> ErdColumnText {
        ErdColumnText {
            name: self.name@,
            type_text: self.type_text@,
            nullable: self.nullable,
            primary_key: self.primary_key,
            foreign_key: self.foreign_key,
        }
    }
}

/// One box of a diagram.
#[derive(Clone, Debug, PartialEq, Eq)]
pub struct ErdTable {
    pub name: String,
    pub columns: Vec<ErdColumn>,
}

/// One box of a diagram.
#[verifier::ext_equal]
pub ghost struct ErdTableText {
    pub name: Seq<char>,
    pub columns: Seq<ErdColumnText>,
}

/// The columns of a list.
pub open spec fn erd_columns(list: Seq<ErdColumn>) -> Seq<ErdColumnText> {
    list.map_values(|c: ErdColumn| c@)
}

impl View for ErdTable {
    type V = ErdTableText;

    open spec fn view(&self) -> ErdTableText {
        ErdTableText { name: self.name@, columns: erd_columns(self.columns@) }
    }
}

/// One line of a diagram, between two of its boxes.
#[derive(Clone, Debug, PartialEq, Eq)]
pub struct ErdRelation {
    pub name: Option<String>,
    pub from: usize,
    pub to: usize,
    pub columns: Vec<(String, String)>,
}

/// One line of a diagram.
#[verifier::ext_equal]
pub ghost struct RelationText {
    pub name: Option<Seq<char>>,
    pub from: int,
    pub to: int,
    pub columns: Seq<(Seq<char>, Seq<char>)>,
}

impl View for ErdRelation {
    type V = RelationText;

    open spec fn view(&self) -> RelationText {
        RelationText {
            name: maybe_text(self.name),
            from: self.from as int,
            to: self.to as int,
            columns: column_pairs(self.columns@),
        }
    }
}

/// The boxes and the lines of a diagram.
#[derive(Clone, Debug, PartialEq, Eq)]
pub struct ErdModel {
    pub tables: Vec<ErdTable>,
    pub relations: Vec<ErdRelation>,
}

/// The lines of a list.
pub open spec fn erd_relations(list: Seq<ErdRelation>) -> Seq<RelationText> {
    list.map_values(|r: ErdRelation| r@)
}

/// What was reported of one table's keys.
#[derive(Debug)]
pub struct TableKeys {
    /// The columns of the primary key.
    pub primary: Vec<Option<String>>,
    /// The columns of the foreign keys.
    pub imported: Vec<ImportedKey>,
}

/// The texts of a list that may lack some.
pub open spec fn maybe_texts(list: Seq<Option<String>>) -> Seq<Option<Seq<char>>> {
    list.map_values(|t: Option<String>| maybe_text(t))
}

/// What a column of a box is ordered by: its ordinal, then its name. One without
/// an ordinal comes last.
pub open spec fn column_key(column: ColumnItemText) -> KeyText {
    KeyText {
        number: match column.ordinal {
            Some(ordinal) => ordinal as int,
            None => i64::MAX as int,
        },
        first: column.name,
        second: None,
    }
}

/// The columns that belong to a table, as they were reported.
pub open spec fn columns_reported(items: Seq<ColumnItemText>, table: Seq<char>) -> Seq<ColumnItemText>
    decreases items.len(),
{
    if items.len() == 0 {
        Seq::empty()
    } else {
        let before = columns_reported(items.drop_last(), table);
        if items.last().table == Some(table) {
            before.push(items.last())
        } else {
            before
        }
    }
}

/// The columns that belong to a table, in the order of the box.
pub open spec fn columns_in_order(items: Seq<ColumnItemText>, table: Seq<char>) -> Seq<ColumnItemText> {
    let mine = columns_reported(items, table);
    let order = stable_order(mine.map_values(|c: ColumnItemText| column_key(c)));
    order.map_values(|i: int| mine[i])
}

/// Whether one of the rows names the column as its own.
pub open spec fn is_foreign(rows: Seq<ImportedText>, column: Seq<char>) -> bool {
    exists|i: int| 0 <= i < rows.len() && (#[trigger] rows[i]).fk_column == Some(column)
}

/// The columns of a box: those that have a name, with the marks of the keys. A
/// column whose nullability is not reported is taken to allow NULL.
pub open spec fn box_columns(
    items: Seq<ColumnItemText>,
    primary: Seq<Option<Seq<char>>>,
    imported: Seq<ImportedText>,
) -> Seq<ErdColumnText>
    decreases items.len(),
{
    if items.len() == 0 {
        Seq::empty()
    } else {
        let before = box_columns(items.drop_last(), primary, imported);
        let item = items.last();
        match item.name {
            Some(name) => before.push(
                ErdColumnText {
                    name,
                    type_text: item.type_text,
                    nullable: match item.nullable {
                        Some(nullable) => nullable,
                        None => true,
                    },
                    primary_key: primary.contains(Some(name)),
                    foreign_key: is_foreign(imported, name),
                },
            ),
            None => before,
        }
    }
}

/// One box.
pub open spec fn box_of(items: Seq<ColumnItemText>, table: Seq<char>, keys: TableKeys) -> ErdTableText {
    ErdTableText {
        name: table,
        columns: box_columns(
            columns_in_order(items, table),
            maybe_texts(keys.primary@),
            imported_texts(keys.imported@),
        ),
    }
}

/// The edges of the first `n` tables, one table after the other.
pub open spec fn all_edges(
    names: Seq<Seq<char>>,
    keys: Seq<TableKeys>,
    scope: Scope,
    n: nat,
) -> Seq<EdgeText>
    decreases n,
{
    if n == 0 {
        Seq::empty()
    } else {
        all_edges(names, keys, scope, (n - 1) as nat) + table_edges(
            names[n - 1],
            imported_texts(keys[n - 1].imported@),
            scope,
        )
    }
}

/// The lines of the edges whose ends are both among the boxes.
pub open spec fn lines_of(edges: Seq<EdgeText>, names: Seq<Seq<char>>) -> Seq<RelationText>
    decreases edges.len(),
{
    if edges.len() == 0 {
        Seq::empty()
    } else {
        let before = lines_of(edges.drop_last(), names);
        let edge = edges.last();
        match (names.index_of_first(edge.from), names.index_of_first(edge.to)) {
            (Some(from), Some(to)) => before.push(
                RelationText { name: edge.name, from, to, columns: edge.columns },
            ),
            _ => before,
        }
    }
}

/// The columns of one table in the order of the box.
fn sorted_columns(items: &Vec<ColumnItem>, table: &str) -> (r: Vec<usize>)
    ensures
        forall|k: int| 0 <= k < r@.len() ==> #[trigger] r@[k] < items@.len(),
        r@.map_values(|i: usize| items@[i as int]@) == columns_in_order(column_items(items@), table@),
{
    let ghost listed = column_items(items@);
    let mut mine: Vec<usize> = Vec::new();
    let mut keys: Vec<SortKey> = Vec::new();
    let mut i: usize = 0;
    assert(mine@.map_values(|i: usize| items@[i as int]@) =~= columns_reported(
        listed.take(0),
        table@,
    ));
    while i < items.len()
        invariant
            i <= items@.len(),
            listed == column_items(items@),
            mine@.len() == keys@.len(),
            forall|k: int| 0 <= k < mine@.len() ==> #[trigger] mine@[k] < items@.len(),
            forall|k: int|
                0 <= k < mine@.len() ==> (#[trigger] keys@[k])@ == column_key(
                    items@[mine@[k] as int]@,
                ),
            mine@.map_values(|i: usize| items@[i as int]@) == columns_reported(
                listed.take(i as int),
                table@,
            ),
        decreases items.len() - i,
    {
        let ghost next = listed.take(i + 1);
        assert(next.drop_last() =~= listed.take(i as int));
        assert(next.last() == items@[i as int]@);
        let belongs = match &items[i].table {
            Some(name) => same_text(name.as_str(), table),
            None => false,
        };
        if belongs {
            let number: i64 = match items[i].ordinal {
                Some(ordinal) => ordinal,
                None => i64::MAX,
            };
            let ghost before = mine@.map_values(|i: usize| items@[i as int]@);
            mine.push(i);
            keys.push(SortKey { number, first: copy_part(&items[i].name), second: None });
            assert(mine@.map_values(|i: usize| items@[i as int]@) =~= before.push(
                items@[i as int]@,
            ));
        }
        i = i + 1;
    }
    assert(listed.take(listed.len() as int) =~= listed);
    let ghost chosen = columns_reported(listed, table@);
    assert(key_texts(keys@) =~= chosen.map_values(|c: ColumnItemText| column_key(c))) by {
        assert forall|k: int| 0 <= k < keys@.len() implies key_texts(keys@)[k]
            == chosen.map_values(|c: ColumnItemText| column_key(c))[k] by {
            assert(keys@[k]@ == column_key(items@[mine@[k] as int]@));
            assert(mine@.map_values(|i: usize| items@[i as int]@)[k] == items@[mine@[k] as int]@);
        }
    }
    let order = sort_places(&keys);
    let mut out: Vec<usize> = Vec::new();
    let mut n: usize = 0;
    while n < order.len()
        invariant
            n <= order@.len(),
            out@.len() == n,
            forall|a: int| 0 <= a < order@.len() ==> #[trigger] order@[a] < mine@.len(),
            forall|k: int| 0 <= k < mine@.len() ==> #[trigger] mine@[k] < items@.len(),
            forall|k: int| 0 <= k < n ==> #[trigger] out@[k] == mine@[order@[k] as int],
        decreases order.len() - n,
    {
        out.push(mine[order[n]]);
        n = n + 1;
    }
    proof {
        let result = columns_in_order(listed, table@);
        let got = out@.map_values(|i: usize| items@[i as int]@);
        assert forall|k: int| 0 <= k < out@.len() implies #[trigger] out@[k] < items@.len() by {
            assert(order@[k] < mine@.len());
        }
        assert(result.len() == out@.len());
        assert forall|k: int| 0 <= k < result.len() implies got[k] == result[k] by {
            assert(places(order@)[k] == order@[k] as int);
            assert(out@[k] == mine@[order@[k] as int]);
            assert(mine@.map_values(|i: usize| items@[i as int]@)[order@[k] as int]
                == items@[mine@[order@[k] as int] as int]@);
        }
        assert(got =~= result);
    }
    out
}

/// Whether the list holds the name.
fn holds_name(list: &Vec<Option<String>>, name: &str) -> (r: bool)
    ensures
        r == maybe_texts(list@).contains(Some(name@)),
{
    let mut i: usize = 0;
    while i < list.len()
        invariant
            i <= list@.len(),
            forall|k: int| 0 <= k < i ==> maybe_texts(list@)[k] != Some(name@),
        decreases list.len() - i,
    {
        let found = match &list[i] {
            Some(text) => same_text(text.as_str(), name),
            None => false,
        };
        if found {
            assert(maybe_texts(list@)[i as int] == Some(name@));
            return true;
        }
        i = i + 1;
    }
    false
}

/// Whether one of the rows names the column as its own.
fn holds_foreign(rows: &Vec<ImportedKey>, name: &str) -> (r: bool)
    ensures
        r == is_foreign(imported_texts(rows@), name@),
{
    let mut i: usize = 0;
    while i < rows.len()
        invariant
            i <= rows@.len(),
            forall|k: int|
                0 <= k < i ==> (#[trigger] imported_texts(rows@)[k]).fk_column != Some(name@),
        decreases rows.len() - i,
    {
        let found = match &rows[i].fk_column {
            Some(text) => same_text(text.as_str(), name),
            None => false,
        };
        if found {
            assert(imported_texts(rows@)[i as int].fk_column == Some(name@));
            return true;
        }
        i = i + 1;
    }
    false
}

/// One box.
fn build_box(items: &Vec<ColumnItem>, name: &str, keys: &TableKeys) -> (r: ErdTable)
    ensures
        r@ == box_of(column_items(items@), name@, *keys),
{
    let order = sorted_columns(items, name);
    let ghost listed = order@.map_values(|i: usize| items@[i as int]@);
    let ghost primary = maybe_texts(keys.primary@);
    let ghost imported = imported_texts(keys.imported@);
    let mut columns: Vec<ErdColumn> = Vec::new();
    let mut n: usize = 0;
    assert(erd_columns(columns@) =~= box_columns(listed.take(0), primary, imported));
    while n < order.len()
        invariant
            n <= order@.len(),
            forall|k: int| 0 <= k < order@.len() ==> #[trigger] order@[k] < items@.len(),
            listed == order@.map_values(|i: usize| items@[i as int]@),
            primary == maybe_texts(keys.primary@),
            imported == imported_texts(keys.imported@),
            erd_columns(columns@) == box_columns(listed.take(n as int), primary, imported),
        decreases order.len() - n,
    {
        let ghost next = listed.take(n + 1);
        assert(next.drop_last() =~= listed.take(n as int));
        let item = &items[order[n]];
        assert(next.last() == item@);
        match &item.name {
            Some(column) => {
                let ghost before = erd_columns(columns@);
                let made = ErdColumn {
                    name: column.clone(),
                    type_text: item.type_text.clone(),
                    nullable: match item.nullable {
                        Some(nullable) => nullable,
                        None => true,
                    },
                    primary_key: holds_name(&keys.primary, column.as_str()),
                    foreign_key: holds_foreign(&keys.imported, column.as_str()),
                };
                columns.push(made);
                assert(erd_columns(columns@) =~= before.push(made@));
            },
            None => {},
        }
        n = n + 1;
    }
    assert(listed.take(listed.len() as int) =~= listed);
    ErdTable { name: name.to_owned(), columns }
}

/// Where a name stands in a list, first.
fn index_of(names: &Vec<String>, name: &str) -> (r: Option<usize>)
    ensures
        match r {
            Some(at) => texts(names@).index_of_first(name@) == Some(at as int) && at < names@.len(),
            None => texts(names@).index_of_first(name@) is None,
        },
{
    proof {
        texts(names@).index_of_first_ensures(name@);
    }
    let mut i: usize = 0;
    while i < names.len()
        invariant
            i <= names@.len(),
            forall|k: int| 0 <= k < i ==> texts(names@)[k] != name@,
        decreases names.len() - i,
    {
        if same_text(names[i].as_str(), name) {
            proof {
                texts(names@).index_of_first_ensures(name@);
                assert(texts(names@)[i as int] == name@);
                assert(texts(names@).contains(name@));
            }
            return Some(i);
        }
        i = i + 1;
    }
    proof {
        texts(names@).index_of_first_ensures(name@);
    }
    None
}

/// Assembles a diagram of what the catalogue reported: `names` are the tables,
/// `columns` the columns of the whole scope, and `keys` what was reported of each
/// table's keys, in the order of the names.
///
/// An edge pointing at a table outside the scope is dropped rather than drawn to
/// a box that is not there. The column keeps its foreign-key mark, because it
/// references something whether or not the something is on screen.
pub fn load_model(
    scope: &Scope,
    names: &Vec<String>,
    columns: &Vec<ColumnItem>,
    keys: &Vec<TableKeys>,
) -> (r: ErdModel)
    requires
        keys@.len() == names@.len(),
    ensures
        r.tables@.len() == names@.len(),
        forall|i: int|
            0 <= i < names@.len() ==> (#[trigger] r.tables@[i])@ == box_of(
                column_items(columns@),
                names@[i]@,
                keys@[i],
            ),
        erd_relations(r.relations@) == lines_of(
            all_edges(texts(names@), keys@, *scope, names@.len()),
            texts(names@),
        ),
{
    let ghost listed = texts(names@);
    let mut tables: Vec<ErdTable> = Vec::new();
    let mut relations: Vec<ErdRelation> = Vec::new();
    let mut i: usize = 0;
    assert(erd_relations(relations@) =~= lines_of(all_edges(listed, keys@, *scope, 0), listed));
    while i < names.len()
        invariant
            i <= names@.len(),
            keys@.len() == names@.len(),
            listed == texts(names@),
            tables@.len() == i,
            forall|k: int|
                0 <= k < i ==> (#[trigger] tables@[k])@ == box_of(
                    column_items(columns@),
                    names@[k]@,
                    keys@[k],
                ),
            erd_relations(relations@) == lines_of(
                all_edges(listed, keys@, *scope, i as nat),
                listed,
            ),
        decreases names.len() - i,
    {
        tables.push(build_box(columns, names[i].as_str(), &keys[i]));
        let edges = edges_of(names[i].as_str(), &keys[i].imported, scope);
        let ghost so_far = all_edges(listed, keys@, *scope, i as nat);
        let ghost added = edge_texts(edges@);
        assert(all_edges(listed, keys@, *scope, (i + 1) as nat) == so_far + added);
        assert(so_far + added.take(0) =~= so_far);
        let mut k: usize = 0;
        while k < edges.len()
            invariant
                k <= edges@.len(),
                listed == texts(names@),
                added == edge_texts(edges@),
                erd_relations(relations@) == lines_of(so_far + added.take(k as int), listed),
            decreases edges.len() - k,
        {
            let ghost next = so_far + added.take(k + 1);
            assert(next.drop_last() =~= so_far + added.take(k as int));
            assert(next.last() == edges@[k as int]@);
            let edge = &edges[k];
            match (index_of(names, edge.from.as_str()), index_of(names, edge.to.as_str())) {
                (Some(from), Some(to)) => {
                    let ghost before = erd_relations(relations@);
                    let mut pairs: Vec<(String, String)> = Vec::new();
                    let mut n: usize = 0;
                    while n < edge.columns.len()
                        invariant
                            n <= edge.columns@.len(),
                            pairs@.len() == n,
                            forall|j: int|
                                0 <= j < n ==> (#[trigger] pairs@[j]).0@ == edge.columns@[j].0@
                                    && pairs@[j].1@ == edge.columns@[j].1@,
                        decreases edge.columns.len() - n,
                    {
                        pairs.push((edge.columns[n].0.clone(), edge.columns[n].1.clone()));
                        n = n + 1;
                    }
                    assert(column_pairs(pairs@) =~= column_pairs(edge.columns@));
                    let made = ErdRelation { name: copy_part(&edge.name), from, to, columns: pairs };
                    relations.push(made);
                    assert(erd_relations(relations@) =~= before.push(made@));
                },
                _ => {},
            }
            k = k + 1;
        }
        assert(added.take(added.len() as int) =~= added);
        i = i + 1;
    }
    ErdModel { tables, relations }
}

/// Every line of a diagram has both its ends among the boxes.
pub proof fn lines_end_on_boxes(edges: Seq<EdgeText>, names: Seq<Seq<char>>)
    ensures
        forall|i: int|
            0 <= i < lines_of(edges, names).len() ==> {
                &&& 0 <= (#[trigger] lines_of(edges, names)[i]).from < names.len()
                &&& 0 <= lines_of(edges, names)[i].to < names.len()
            },
    decreases edges.len(),
{
    if edges.len() > 0 {
        lines_end_on_boxes(edges.drop_last(), names);
        names.index_of_first_ensures(edges.last().from);
        names.index_of_first_ensures(edges.last().to);
        let before = lines_of(edges.drop_last(), names);
        assert forall|i: int| 0 <= i < lines_of(edges, names).len() implies {
            &&& 0 <= (#[trigger] lines_of(edges, names)[i]).from < names.len()
            &&& 0 <= lines_of(edges, names)[i].to < names.len()
        } by {
            if i < before.len() {
                assert(lines_of(edges, names)[i] == before[i]);
            }
        }
    }
}

/// Where the panel's data has got to.
#[derive(Debug, PartialEq, Eq)]
pub enum Load {
    /// A fetch is out.
    Running,
    /// It came back, with this many tables in it.
    Ready(usize),
    /// It failed; the driver's own message.
    Failed(String),
}

/// What an export last reported.
#[derive(Debug, PartialEq, Eq)]
pub struct Notice {
    /// The sentence shown in the toolbar.
    pub message: Label,
    /// Whether it is a failure, and so drawn in the danger colour.
    pub error: bool,
}

/// What the panel asks its host for.
#[derive(Debug, PartialEq, Eq)]
pub enum ErdPaneEvent {
    /// Read this scope's tables and keys.
    Load(ErdTarget),
    /// The boxes have been moved and the arrangement is worth saving.
    LayoutChanged(ErdTarget),
}

/// The panel.
#[derive(Debug)]
pub struct ErdPane {
    /// What is being drawn.
    pub target: ErdTarget,
    /// Where the fetch has got to.
    pub load: Load,
    /// What the last export said, until the next one.
    pub notice: Option<Notice>,
}

/// What the toolbar shows.
#[derive(Debug)]
pub struct ErdToolbar {
    pub title: Label,
    /// The line that says a fetch is out.
    pub loading: Option<&'static str>,
    /// What the last export said.
    pub notice: Option<(Label, Tone)>,
    pub buttons: Vec<Button>,
}

/// What stands under the toolbar.
#[derive(Debug, PartialEq, Eq)]
pub enum ErdBody {
    /// One line, where the canvas would be.
    Note(Label, Tone),
    /// The canvas.
    Canvas,
}

/// What an export's outcome says.
pub open spec fn export_notice(outcome: Result<String, String>) -> (LabelText, bool) {
    match outcome {
        Ok(path) => (with("erd.export_done", "path", path@), false),
        Err(error) => (with("erd.export_failed", "error", error@), true),
    }
}

/// The toolbar's buttons: arranging and exporting want a diagram, and a fetch
/// that is out is not asked for again.
pub open spec fn erd_buttons(load: Load) -> Seq<Button> {
    let ready = load is Ready;
    let loading = load is Running;
    seq![
        Button {
            id: "erd-arrange",
            label: "erd.auto_arrange",
            variant: ButtonVariant::Secondary,
            enabled: ready,
        },
        Button {
            id: "erd-export",
            label: "erd.export_svg",
            variant: ButtonVariant::Secondary,
            enabled: ready,
        },
        Button {
            id: "erd-refresh",
            label: "erd.refresh",
            variant: ButtonVariant::Secondary,
            enabled: !loading,
        },
    ]
}

/// What stands under the toolbar: a line while there is nothing to draw. A schema
/// with no tables gets a line too, because an empty canvas reads as a diagram
/// that failed.
pub open spec fn erd_body(load: Load) -> Option<(LabelText, Tone)> {
    match load {
        Load::Running => Some((plain("erd.loading"), Tone::Muted)),
        Load::Failed(message) => Some((with("erd.load_failed", "error", message@), Tone::Danger)),
        Load::Ready(count) => if count == 0 {
            Some((plain("erd.empty"), Tone::Muted))
        } else {
            None
        },
    }
}

/// A copy of a target.
pub fn copy_target(target: &ErdTarget) -> (r: ErdTarget)
    ensures
        r == *target,
{
    ErdTarget {
        connection: target.connection,
        scope: Scope {
            catalog: copy_part(&target.scope.catalog),
            schema: copy_part(&target.scope.schema),
        },
    }
}

impl ErdPane {
    /// Opens a panel over `target`, in its loading state. It does not ask for the
    /// model: nobody listens to a panel that is still being made. The host calls
    /// [`ErdPane::refresh`].
    pub fn new(target: ErdTarget) -> (r: Self)
        ensures
            r.target == target,
            r.load is Running,
            r.notice is None,
    {
        ErdPane { target, load: Load::Running, notice: None }
    }

    /// The scope this panel draws.
    pub fn target(&self) -> (r: &ErdTarget)
        ensures
            *r == self.target,
    {
        &self.target
    }

    /// Asks for the model again.
    pub fn refresh(&mut self) -> (r: ErdPaneEvent)
        ensures
            r == ErdPaneEvent::Load(old(self).target),
            *final(self) == (ErdPane { load: Load::Running, notice: None, ..*old(self) }),
    {
        self.load = Load::Running;
        self.notice = None;
        ErdPaneEvent::Load(copy_target(&self.target))
    }

    /// The boxes were moved: one request to save per gesture.
    pub fn layout_changed(&self) -> (r: ErdPaneEvent)
        ensures
            r == ErdPaneEvent::LayoutChanged(self.target),
    {
        ErdPaneEvent::LayoutChanged(copy_target(&self.target))
    }

    /// Records what a fetch produced: how many tables, or why there are none.
    pub fn deliver(&mut self, outcome: Result<usize, String>)
        ensures
            *final(self) == (ErdPane {
                load: match outcome {
                    Ok(count) => Load::Ready(count),
                    Err(message) => Load::Failed(message),
                },
                ..*old(self)
            }),
    {
        match outcome {
            Ok(count) => {
                self.load = Load::Ready(count);
            },
            Err(message) => {
                self.load = Load::Failed(message);
            },
        }
    }

    /// Whether a fetch is out.
    pub fn is_loading(&self) -> (r: bool)
        ensures
            r == (self.load is Running),
    {
        matches!(self.load, Load::Running)
    }

    /// The failure a fetch reported, if it failed.
    pub fn failure(&self) -> (r: Option<&String>)
        ensures
            match r {
                Some(message) => self.load == Load::Failed(*message),
                None => !(self.load is Failed),
            },
    {
        match &self.load {
            Load::Failed(message) => Some(message),
            _ => None,
        }
    }

    /// How many boxes are on the canvas, once it has loaded.
    pub fn table_count(&self) -> (r: Option<usize>)
        ensures
            match r {
                Some(count) => self.load == Load::Ready(count),
                None => !(self.load is Ready),
            },
    {
        match self.load {
            Load::Ready(count) => Some(count),
            _ => None,
        }
    }

    /// Whether the keyboard goes to the canvas, which is drawn only once there is
    /// a box on it, rather than to the panel, which always is.
    pub fn focus_goes_to_the_canvas(&self) -> (r: bool)
        ensures
            r == (self.load matches Load::Ready(count) && count > 0),
            r <==> erd_body(self.load) is None,
    {
        match self.load {
            Load::Ready(count) => count > 0,
            _ => false,
        }
    }

    /// The file name an export is suggested under.
    pub fn suggested_file(&self) -> (r: String)
        ensures
            r@ == stem_of(qualified_scope(self.target.scope)) + ".svg"@,
    {
        let mut name = self.target.file_stem();
        name.append(".svg");
        name
    }

    /// Records how the export went: where it was written, or why it was not.
    pub fn exported(&mut self, outcome: Result<String, String>)
        ensures
            final(self).target == old(self).target,
            final(self).load == old(self).load,
            final(self).notice is Some,
            final(self).notice.unwrap().message@ == export_notice(outcome).0,
            final(self).notice.unwrap().error == export_notice(outcome).1,
    {
        match outcome {
            Ok(path) => {
                self.notice = Some(
                    Notice {
                        message: Label::with("erd.export_done", "path", path.as_str()),
                        error: false,
                    },
                );
            },
            Err(error) => {
                self.notice = Some(
                    Notice {
                        message: Label::with("erd.export_failed", "error", error.as_str()),
                        error: true,
                    },
                );
            },
        }
    }

    /// The toolbar: what is being drawn, what it reports, and the three buttons.
    pub fn toolbar(&self) -> (r: ErdToolbar)
        ensures
            r.title@ == title_of(self.target.scope),
            r.loading == (if self.load is Running {
                Some("erd.loading")
            } else {
                None
            }),
            r.notice is Some <==> self.notice is Some,
            self.notice is Some ==> r.notice.unwrap().0@ == self.notice.unwrap().message@
                && r.notice.unwrap().1 == (if self.notice.unwrap().error {
                Tone::Danger
            } else {
                Tone::Muted
            }),
            r.buttons@ == erd_buttons(self.load),
    {
        let loading = self.is_loading();
        let ready = matches!(self.load, Load::Ready(_));
        let mut buttons: Vec<Button> = Vec::new();
        buttons.push(
            Button {
                id: "erd-arrange",
                label: "erd.auto_arrange",
                variant: ButtonVariant::Secondary,
                enabled: ready,
            },
        );
        buttons.push(
            Button {
                id: "erd-export",
                label: "erd.export_svg",
                variant: ButtonVariant::Secondary,
                enabled: ready,
            },
        );
        buttons.push(
            Button {
                id: "erd-refresh",
                label: "erd.refresh",
                variant: ButtonVariant::Secondary,
                enabled: !loading,
            },
        );
        assert(buttons@ =~= erd_buttons(self.load));
        let notice = match &self.notice {
            Some(notice) => {
                let tone = if notice.error {
                    Tone::Danger
                } else {
                    Tone::Muted
                };
                Some((notice.message.copy(), tone))
            },
            None => None,
        };
        ErdToolbar {
            title: self.target.title(),
            loading: if loading {
                Some("erd.loading")
            } else {
                None
            },
            notice,
            buttons,
        }
    }

    /// The body: the canvas, or the one line that stands in for it.
    pub fn body(&self) -> (r: ErdBody)
        ensures
            match erd_body(self.load) {
                Some((label, tone)) => r matches ErdBody::Note(shown, colour) && shown@ == label
                    && colour == tone,
                None => r is Canvas,
            },
    {
        match &self.load {
            Load::Running => ErdBody::Note(Label::plain("erd.loading"), Tone::Muted),
            Load::Failed(message) => ErdBody::Note(
                Label::with("erd.load_failed", "error", message.as_str()),
                Tone::Danger,
            ),
            Load::Ready(count) => if *count == 0 {
                ErdBody::Note(Label::plain("erd.empty"), Tone::Muted)
            } else {
                ErdBody::Canvas
            },
        }
    }
}

} // verus!
