//! The query builder's model, and the `SELECT` it comes out as.
//!
//! Everything the builder is stands here as plain data: which tables are on the
//! canvas, what they are called, which of their columns are picked, what joins
//! them, and the clause lists edited in the form below.
//!
//! The generator emits one `SELECT` over the tables it is given, in the order it
//! is given them, and never reorders them: the first table is the one the `FROM`
//! names, and every table after it is attached to what came before, by a join
//! when an edge reaches back and by a comma when none does.
//!
//! How a name is spelled is the dialect's business. [`names_to_spell`] says which
//! names the statement needs, and [`generate`] takes them as the dialect wrote
//! them.

use vstd::prelude::*;

use crate::text::{
    append_decimal, as_text, contains_text, copy_texts, decimal, decimal_injective,
    distinct_texts_fit, join, joined, maybe_text, str_text, texts, trim, trimmed,
    trimming_once_is_enough,
};

verus! {

/// One table on the canvas: where it lives, what it is called here, and the
/// columns that can be picked from it.
#[derive(Clone, Debug, PartialEq, Eq)]
pub struct BuilderTable {
    /// Its catalogue, when the product has them and the driver reported one.
    pub catalog: Option<String>,
    /// Its schema, likewise.
    pub schema: Option<String>,
    /// The table's own name, as the catalogue spells it.
    pub name: String,
    /// What the statement calls it. Equal to the name unless the same table is on
    /// the canvas twice; an alias equal to the name is not written out at all.
    pub alias: String,
    /// The column names, in catalogue order.
    pub columns: Vec<String>,
}

/// The four join types the form offers.
#[derive(Clone, Copy, Debug, PartialEq, Eq, Structural)]
pub enum JoinKind {
    /// Rows that match on both sides.
    Inner,
    /// Every row of the tables already in the statement.
    Left,
    /// Every row of the table being attached.
    Right,
    /// Every row of both.
    Full,
}

/// The keyword that precedes `JOIN`. `OUTER` is optional everywhere and left off.
pub open spec fn join_keyword(kind: JoinKind) -> Seq<char> {
    match kind {
        JoinKind::Inner => "INNER"@,
        JoinKind::Left => "LEFT"@,
        JoinKind::Right => "RIGHT"@,
        JoinKind::Full => "FULL"@,
    }
}

impl JoinKind {
    /// The four, in the order the dropdown lists them.
    pub fn all() -> (r: [JoinKind; 4])
        ensures
            r@ == seq![JoinKind::Inner, JoinKind::Left, JoinKind::Right, JoinKind::Full],
    {
        [JoinKind::Inner, JoinKind::Left, JoinKind::Right, JoinKind::Full]
    }

    /// The keyword that precedes `JOIN`.
    pub fn keyword(self) -> (r: &'static str)
        ensures
            r@ == join_keyword(self),
    {
        match self {
            JoinKind::Inner => "INNER",
            JoinKind::Left => "LEFT",
            JoinKind::Right => "RIGHT",
            JoinKind::Full => "FULL",
        }
    }
}

/// One edge of the canvas, with the type the form gave it. The ends are a table's
/// index and a column's index in it.
#[derive(Clone, Copy, Debug, PartialEq, Eq)]
pub struct Join {
    /// The column the drag began at.
    pub from: (usize, usize),
    /// The column it ended at.
    pub to: (usize, usize),
    /// What kind of join it is.
    pub kind: JoinKind,
}

/// Which way an `ORDER BY` term sorts.
#[derive(Clone, Copy, Debug, PartialEq, Eq, Structural)]
pub enum SortDir {
    /// Ascending, written out rather than left implicit.
    Asc,
    /// Descending.
    Desc,
}

/// The keyword that follows a sorted column.
pub open spec fn sort_keyword(direction: SortDir) -> Seq<char> {
    match direction {
        SortDir::Asc => "ASC"@,
        SortDir::Desc => "DESC"@,
    }
}

impl SortDir {
    /// The keyword that follows the column. `ASC` is written although it is the
    /// default: a statement where two of the form's three states looked the same
    /// would make the control seem broken.
    pub fn keyword(self) -> (r: &'static str)
        ensures
            r@ == sort_keyword(self),
    {
        match self {
            SortDir::Asc => "ASC",
            SortDir::Desc => "DESC",
        }
    }
}

/// Everything one builder tab holds, as data.
#[derive(Clone, Debug, PartialEq, Eq)]
pub struct BuilderQuery {
    /// The tables, in the order they were added.
    pub tables: Vec<BuilderTable>,
    /// The joins, in the order they were drawn.
    pub joins: Vec<Join>,
    /// The picked columns, in the order they were picked.
    pub selected: Vec<(usize, usize)>,
    /// The `WHERE` rows, free text. Blank rows are ignored and the rest are
    /// combined with `AND`.
    pub where_clauses: Vec<String>,
    /// The columns grouped by.
    pub group_by: Vec<(usize, usize)>,
    /// The columns sorted by, in the order the terms are written.
    pub order_by: Vec<((usize, usize), SortDir)>,
}

impl Default for BuilderQuery {
    fn default() -> (r: Self)
        ensures
            r.tables@.len() == 0,
            r.joins@.len() == 0,
            r.selected@.len() == 0,
            r.where_clauses@.len() == 0,
            r.group_by@.len() == 0,
            r.order_by@.len() == 0,
    {
        BuilderQuery {
            tables: Vec::new(),
            joins: Vec::new(),
            selected: Vec::new(),
            where_clauses: Vec::new(),
            group_by: Vec::new(),
            order_by: Vec::new(),
        }
    }
}

/// The `n`th name tried for a table: its own, then `name_2`, `name_3` and so on.
pub open spec fn alias_candidate(name: Seq<char>, n: nat) -> Seq<char> {
    if n <= 1 {
        name
    } else {
        name + "_"@ + decimal(n)
    }
}

/// Whether `alias` is the first name tried for `name` that `taken` does not use.
pub open spec fn first_free_alias(name: Seq<char>, taken: Seq<Seq<char>>, alias: Seq<char>) -> bool {
    exists|n: nat|
        1 <= n && alias == #[trigger] alias_candidate(name, n) && !taken.contains(alias) && forall|k: nat|
            1 <= k < n ==> taken.contains(#[trigger] alias_candidate(name, k))
}

/// Different numbers give different names.
proof fn lemma_candidates_differ(name: Seq<char>, a: nat, b: nat)
    requires
        1 <= a,
        a < b,
    ensures
        alias_candidate(name, a) != alias_candidate(name, b),
{
    reveal_strlit("_");
    let second = alias_candidate(name, b);
    if a == 1 {
        assert(second.len() > name.len());
    } else if alias_candidate(name, a) == second {
        let first = alias_candidate(name, a);
        let skip = (name.len() + 1) as int;
        assert(first.subrange(skip, first.len() as int) =~= decimal(a));
        assert(second.subrange(skip, second.len() as int) =~= decimal(b));
        decimal_injective(a, b);
    }
}

/// A run of names that are all taken is no longer than the list of taken ones.
proof fn lemma_candidates_run_out(name: Seq<char>, taken: Seq<Seq<char>>, n: nat)
    requires
        1 <= n,
        forall|k: nat| 1 <= k < n ==> taken.contains(#[trigger] alias_candidate(name, k)),
    ensures
        n - 1 <= taken.len(),
{
    let found = Seq::new((n - 1) as nat, |i: int| alias_candidate(name, (i + 1) as nat));
    assert forall|i: int, j: int| 0 <= i < found.len() && 0 <= j < found.len() && i != j implies found[i]
        != found[j] by {
        if i < j {
            lemma_candidates_differ(name, (i + 1) as nat, (j + 1) as nat);
        } else {
            lemma_candidates_differ(name, (j + 1) as nat, (i + 1) as nat);
        }
    }
    distinct_texts_fit(found, taken);
}

/// An alias for `name` that no entry of `taken` already uses: the table's own
/// name when it is free, and `name_2`, `name_3`… when it is not.
pub fn unique_alias(name: &str, taken: &[String]) -> (r: String)
    ensures
        first_free_alias(name@, texts(taken@), r@),
        !texts(taken@).contains(r@),
{
    let mut candidate = name.to_owned();
    let mut n: u128 = 1;
    let total: usize = taken.len();
    loop
        invariant
            1 <= n,
            n <= total + 1,
            total == taken@.len(),
            candidate@ == alias_candidate(name@, n as nat),
            forall|k: nat| 1 <= k < n ==> texts(taken@).contains(#[trigger] alias_candidate(name@, k)),
        decreases total + 1 - n,
    {
        if !contains_text(taken, candidate.as_str()) {
            return candidate;
        }
        proof {
            assert forall|k: nat| 1 <= k < n + 1 implies texts(taken@).contains(
                #[trigger] alias_candidate(name@, k),
            ) by {
                if k == n {
                    assert(candidate@ == alias_candidate(name@, k));
                }
            }
            lemma_candidates_run_out(name@, texts(taken@), (n + 1) as nat);
        }
        n = n + 1;
        candidate = name.to_owned();
        candidate.append("_");
        append_decimal(&mut candidate, n);
    }
}

/// Whether a name part is there and says something.
pub open spec fn present(part: Option<Seq<char>>) -> bool {
    match part {
        Some(text) => text.len() > 0,
        None => false,
    }
}

/// One table's name parts, most significant first and the absent ones dropped:
/// the schema when there is one, else the catalogue, then the name.
pub open spec fn parts_of(
    catalog: Option<Seq<char>>,
    schema: Option<Seq<char>>,
    name: Seq<char>,
) -> Seq<Seq<char>> {
    if present(schema) {
        seq![schema.unwrap(), name]
    } else if present(catalog) {
        seq![catalog.unwrap(), name]
    } else {
        seq![name]
    }
}

/// One table's name parts, most significant first and with the absent ones
/// dropped. One rule for reading a row and writing it back: a statement that
/// read from one table and wrote to another would be the worst bug there is.
pub fn table_parts(catalog: Option<&str>, schema: Option<&str>, name: &str) -> (r: Vec<String>)
    ensures
        texts(r@) == parts_of(str_text(catalog), str_text(schema), name@),
{
    let mut parts: Vec<String> = Vec::new();
    let schema_there = match schema {
        Some(part) => !part.is_empty(),
        None => false,
    };
    let catalog_there = match catalog {
        Some(part) => !part.is_empty(),
        None => false,
    };
    if schema_there {
        parts.push(schema.unwrap().to_owned());
    } else if catalog_there {
        parts.push(catalog.unwrap().to_owned());
    }
    parts.push(name.to_owned());
    assert(texts(parts@) =~= parts_of(str_text(catalog), str_text(schema), name@));
    parts
}

/// The names a statement needs of one table, before a dialect has spelled them.
#[derive(Debug)]
pub struct TableNames {
    /// The parts of the qualified name.
    pub reference: Vec<String>,
    /// The alias.
    pub alias: String,
    /// Each column's own name, to be qualified by the alias.
    pub columns: Vec<String>,
}

/// One table's names as a dialect spells them.
#[derive(Clone, Debug)]
pub struct SpelledTable {
    /// The qualified name of the table.
    pub reference: String,
    /// The alias on its own.
    pub alias: String,
    /// Each column, qualified by the alias.
    pub columns: Vec<String>,
}

/// The names the statement of `query` is written with, table by table: what a
/// dialect has to spell for [`generate`].
pub fn names_to_spell(query: &BuilderQuery) -> (r: Vec<TableNames>)
    ensures
        r@.len() == query.tables@.len(),
        forall|i: int|
            0 <= i < r@.len() ==> {
                &&& texts((#[trigger] r@[i]).reference@) == parts_of(
                    maybe_text(query.tables@[i].catalog),
                    maybe_text(query.tables@[i].schema),
                    query.tables@[i].name@,
                )
                &&& r@[i].alias@ == query.tables@[i].alias@
                &&& r@[i].columns@ == query.tables@[i].columns@
            },
{
    let mut out: Vec<TableNames> = Vec::new();
    let mut i: usize = 0;
    while i < query.tables.len()
        invariant
            i <= query.tables.len(),
            out@.len() == i,
            forall|k: int|
                0 <= k < i ==> {
                    &&& texts((#[trigger] out@[k]).reference@) == parts_of(
                        maybe_text(query.tables@[k].catalog),
                        maybe_text(query.tables@[k].schema),
                        query.tables@[k].name@,
                    )
                    &&& out@[k].alias@ == query.tables@[k].alias@
                    &&& out@[k].columns@ == query.tables@[k].columns@
                },
        decreases query.tables.len() - i,
    {
        let table = &query.tables[i];
        let reference = table_parts(
            as_text(&table.catalog),
            as_text(&table.schema),
            table.name.as_str(),
        );
        out.push(
            TableNames {
                reference,
                alias: table.alias.clone(),
                columns: copy_texts(&table.columns),
            },
        );
        i = i + 1;
    }
    out
}

/// Whether `names` spells every table of `query` and every column of each.
pub open spec fn spells(names: Seq<SpelledTable>, query: BuilderQuery) -> bool {
    &&& names.len() == query.tables@.len()
    &&& forall|i: int|
        0 <= i < names.len() ==> (#[trigger] names[i]).columns@.len()
            == query.tables@[i].columns@.len()
}

/// How a column is written, where the query has it.
pub open spec fn column_text(names: Seq<SpelledTable>, at: (usize, usize)) -> Option<Seq<char>> {
    if at.0 < names.len() && at.1 < names[at.0 as int].columns@.len() {
        Some(names[at.0 as int].columns@[at.1 as int]@)
    } else {
        None
    }
}

/// How the columns of a list are written, without those the query does not have.
pub open spec fn column_texts(names: Seq<SpelledTable>, list: Seq<(usize, usize)>) -> Seq<Seq<char>>
    decreases list.len(),
{
    if list.len() == 0 {
        Seq::empty()
    } else {
        let before = column_texts(names, list.drop_last());
        match column_text(names, list.last()) {
            Some(column) => before.push(column),
            None => before,
        }
    }
}

/// The first line: the picked columns, or everything where none is picked.
pub open spec fn select_line(names: Seq<SpelledTable>, selected: Seq<(usize, usize)>) -> Seq<char> {
    let columns = column_texts(names, selected);
    if columns.len() == 0 {
        "SELECT *"@
    } else {
        "SELECT "@ + join(columns, ", "@)
    }
}

/// One table as the `FROM` writes it: its qualified name, and its alias when that
/// is not the name itself.
pub open spec fn table_text(table: BuilderTable, spelled: SpelledTable) -> Seq<char> {
    if table.alias@ == table.name@ {
        spelled.reference@
    } else {
        spelled.reference@ + " "@ + spelled.alias@
    }
}

/// Whether `edge` joins table `index` to one that comes before it.
pub open spec fn reaches_back(edge: Join, index: int) -> bool {
    (edge.from.0 == index && edge.to.0 < index) || (edge.to.0 == index && edge.from.0 < index)
}

/// The condition an edge puts on table `index`: the column of the table that is
/// already in the statement, then the column of the one being attached.
pub open spec fn join_term(names: Seq<SpelledTable>, edge: Join, index: int) -> Option<Seq<char>> {
    let earlier = if edge.from.0 == index {
        edge.to
    } else {
        edge.from
    };
    let added = if edge.from.0 == index {
        edge.from
    } else {
        edge.to
    };
    match (column_text(names, earlier), column_text(names, added)) {
        (Some(left), Some(right)) => Some(left + " = "@ + right),
        _ => None,
    }
}

/// The conditions of every edge that reaches back from table `index`.
pub open spec fn join_terms(names: Seq<SpelledTable>, joins: Seq<Join>, index: int) -> Seq<Seq<char>>
    decreases joins.len(),
{
    if joins.len() == 0 {
        Seq::empty()
    } else {
        let before = join_terms(names, joins.drop_last(), index);
        let edge = joins.last();
        match join_term(names, edge, index) {
            Some(term) if reaches_back(edge, index) => before.push(term),
            _ => before,
        }
    }
}

/// What the first edge that reaches back from table `index` says of the join.
pub open spec fn first_kind(joins: Seq<Join>, index: int) -> Option<JoinKind>
    decreases joins.len(),
{
    if joins.len() == 0 {
        None
    } else {
        match first_kind(joins.drop_last(), index) {
            Some(kind) => Some(kind),
            None => if reaches_back(joins.last(), index) {
                Some(joins.last().kind)
            } else {
                None
            },
        }
    }
}

/// The lines up to and with table `count - 1`, which is at least the first.
pub open spec fn from_lines(query: BuilderQuery, names: Seq<SpelledTable>, count: nat) -> Seq<Seq<char>>
    decreases count,
{
    if count <= 1 {
        seq![
            select_line(names, query.selected@),
            "FROM "@ + table_text(query.tables@[0], names[0]),
        ]
    } else {
        let before = from_lines(query, names, (count - 1) as nat);
        let index = count - 1;
        let table = table_text(query.tables@[index], names[index]);
        let terms = join_terms(names, query.joins@, index);
        match first_kind(query.joins@, index) {
            Some(kind) if terms.len() > 0 => before.push(
                "  "@ + join_keyword(kind) + " JOIN "@ + table + " ON "@ + join(terms, " AND "@),
            ),
            _ => before.drop_last().push(before.last() + ","@).push("  "@ + table),
        }
    }
}

/// The conditions that say something, without the white space around them.
pub open spec fn conditions(clauses: Seq<String>) -> Seq<Seq<char>>
    decreases clauses.len(),
{
    if clauses.len() == 0 {
        Seq::empty()
    } else {
        let before = conditions(clauses.drop_last());
        let clause = trim(clauses.last()@);
        if clause.len() == 0 {
            before
        } else {
            before.push(clause)
        }
    }
}

/// The lines of the conditions: the first after `WHERE`, the rest after `AND`.
pub open spec fn where_lines(list: Seq<Seq<char>>) -> Seq<Seq<char>> {
    Seq::new(
        list.len(),
        |i: int|
            if i == 0 {
                "WHERE "@ + list[0]
            } else {
                "  AND "@ + list[i]
            },
    )
}

/// The line of the columns grouped by, where there are any.
pub open spec fn group_lines(names: Seq<SpelledTable>, list: Seq<(usize, usize)>) -> Seq<Seq<char>> {
    let columns = column_texts(names, list);
    if columns.len() == 0 {
        Seq::empty()
    } else {
        seq!["GROUP BY "@ + join(columns, ", "@)]
    }
}

/// The terms of the sort, without those on columns the query does not have.
pub open spec fn order_terms(
    names: Seq<SpelledTable>,
    list: Seq<((usize, usize), SortDir)>,
) -> Seq<Seq<char>>
    decreases list.len(),
{
    if list.len() == 0 {
        Seq::empty()
    } else {
        let before = order_terms(names, list.drop_last());
        match column_text(names, list.last().0) {
            Some(column) => before.push(column + " "@ + sort_keyword(list.last().1)),
            None => before,
        }
    }
}

/// The line of the sort, where there is any.
pub open spec fn order_lines(
    names: Seq<SpelledTable>,
    list: Seq<((usize, usize), SortDir)>,
) -> Seq<Seq<char>> {
    let terms = order_terms(names, list);
    if terms.len() == 0 {
        Seq::empty()
    } else {
        seq!["ORDER BY "@ + join(terms, ", "@)]
    }
}

/// The lines of the statement.
pub open spec fn statement_lines(query: BuilderQuery, names: Seq<SpelledTable>) -> Seq<Seq<char>> {
    from_lines(query, names, query.tables@.len()) + where_lines(conditions(query.where_clauses@))
        + group_lines(names, query.group_by@) + order_lines(names, query.order_by@)
}

/// The statement, which a query without tables does not have.
pub open spec fn statement(query: BuilderQuery, names: Seq<SpelledTable>) -> Seq<char> {
    if query.tables@.len() == 0 {
        Seq::empty()
    } else {
        join(statement_lines(query, names), "\n"@)
    }
}

/// How a column is written, where the query has it.
fn column<'a>(names: &'a Vec<SpelledTable>, at: (usize, usize)) -> (r: Option<&'a str>)
    ensures
        match r {
            Some(text) => column_text(names@, at) == Some(text@),
            None => column_text(names@, at) is None,
        },
{
    if at.0 < names.len() && at.1 < names[at.0].columns.len() {
        Some(names[at.0].columns[at.1].as_str())
    } else {
        None
    }
}

/// How the columns of a list are written.
fn columns_of(names: &Vec<SpelledTable>, list: &Vec<(usize, usize)>) -> (r: Vec<String>)
    ensures
        texts(r@) == column_texts(names@, list@),
{
    let mut out: Vec<String> = Vec::new();
    let mut i: usize = 0;
    assert(texts(out@) =~= Seq::<Seq<char>>::empty());
    while i < list.len()
        invariant
            i <= list.len(),
            texts(out@) == column_texts(names@, list@.take(i as int)),
        decreases list.len() - i,
    {
        let ghost next = list@.take(i + 1);
        assert(next.drop_last() =~= list@.take(i as int));
        assert(next.last() == list@[i as int]);
        match column(names, list[i]) {
            Some(text) => {
                let ghost before = texts(out@);
                out.push(text.to_owned());
                assert(texts(out@) =~= before.push(text@));
            },
            None => {},
        }
        i = i + 1;
    }
    assert(list@.take(list@.len() as int) =~= list@);
    out
}

/// One table as the `FROM` writes it.
fn table_expr(table: &BuilderTable, spelled: &SpelledTable) -> (r: String)
    ensures
        r@ == table_text(*table, *spelled),
{
    let mut out = spelled.reference.clone();
    if table.alias == table.name {
        return out;
    }
    out.append(" ");
    out.append(spelled.alias.as_str());
    out
}

/// The conditions of every edge that reaches back from table `index`, and what
/// the first of those edges says of the join.
fn terms_of(names: &Vec<SpelledTable>, joins: &Vec<Join>, index: usize) -> (r: (
    Vec<String>,
    Option<JoinKind>,
))
    ensures
        texts(r.0@) == join_terms(names@, joins@, index as int),
        r.1 == first_kind(joins@, index as int),
{
    let mut out: Vec<String> = Vec::new();
    let mut kind: Option<JoinKind> = None;
    let mut i: usize = 0;
    assert(texts(out@) =~= Seq::<Seq<char>>::empty());
    while i < joins.len()
        invariant
            i <= joins.len(),
            texts(out@) == join_terms(names@, joins@.take(i as int), index as int),
            kind == first_kind(joins@.take(i as int), index as int),
        decreases joins.len() - i,
    {
        let ghost next = joins@.take(i + 1);
        assert(next.drop_last() =~= joins@.take(i as int));
        assert(next.last() == joins@[i as int]);
        let edge: Join = joins[i];
        let reaching = (edge.from.0 == index && edge.to.0 < index) || (edge.to.0 == index
            && edge.from.0 < index);
        if reaching {
            if kind.is_none() {
                kind = Some(edge.kind);
            }
            let backwards = edge.from.0 == index;
            let earlier = if backwards {
                edge.to
            } else {
                edge.from
            };
            let added = if backwards {
                edge.from
            } else {
                edge.to
            };
            match (column(names, earlier), column(names, added)) {
                (Some(left), Some(right)) => {
                    let mut term = left.to_owned();
                    term.append(" = ");
                    term.append(right);
                    let ghost before = texts(out@);
                    let ghost text = term@;
                    out.push(term);
                    assert(texts(out@) =~= before.push(text));
                },
                _ => {},
            }
        }
        i = i + 1;
    }
    assert(joins@.take(joins@.len() as int) =~= joins@);
    (out, kind)
}

/// Adds a line.
fn push_line(lines: &mut Vec<String>, line: String)
    ensures
        texts(final(lines)@) == texts(old(lines)@).push(line@),
{
    let ghost before = texts(lines@);
    lines.push(line);
    assert(texts(lines@) =~= before.push(line@));
}

/// The text `head` with `tail` behind it.
fn after(head: &str, tail: &str) -> (r: String)
    ensures
        r@ == head@ + tail@,
{
    let mut out = head.to_owned();
    out.append(tail);
    out
}

/// The lines up to the last table.
fn lines_from(query: &BuilderQuery, names: &Vec<SpelledTable>) -> (r: Vec<String>)
    requires
        query.tables@.len() > 0,
        spells(names@, *query),
    ensures
        texts(r@) == from_lines(*query, names@, query.tables@.len()),
{
    let mut lines: Vec<String> = Vec::new();
    assert(texts(lines@) =~= Seq::<Seq<char>>::empty());
    let selected = columns_of(names, &query.selected);
    assert(texts(selected@).len() == selected@.len());
    if selected.len() == 0 {
        push_line(&mut lines, "SELECT *".to_owned());
    } else {
        let list = joined(&selected, ", ");
        push_line(&mut lines, after("SELECT ", list.as_str()));
    }
    let first = table_expr(&query.tables[0], &names[0]);
    push_line(&mut lines, after("FROM ", first.as_str()));
    assert(texts(lines@) =~= from_lines(*query, names@, 1));
    let mut index: usize = 1;
    while index < query.tables.len()
        invariant
            1 <= index <= query.tables.len(),
            spells(names@, *query),
            texts(lines@) == from_lines(*query, names@, index as nat),
            lines@.len() >= 2,
        decreases query.tables.len() - index,
    {
        let ghost before = texts(lines@);
        let table = table_expr(&query.tables[index], &names[index]);
        let (terms, kind) = terms_of(names, &query.joins, index);
        assert(texts(terms@).len() == terms@.len());
        let joining = match kind {
            Some(kind) => if terms.len() > 0 {
                Some(kind)
            } else {
                None
            },
            None => None,
        };
        match joining {
            Some(kind) => {
                let mut line = after("  ", kind.keyword());
                line.append(" JOIN ");
                line.append(table.as_str());
                line.append(" ON ");
                let condition = joined(&terms, " AND ");
                line.append(condition.as_str());
                push_line(&mut lines, line);
            },
            None => {
                let last = lines.pop();
                match last {
                    Some(previous) => {
                        assert(texts(lines@) =~= before.drop_last());
                        assert(previous@ == before.last());
                        push_line(&mut lines, after(previous.as_str(), ","));
                    },
                    None => {},
                }
                push_line(&mut lines, after("  ", table.as_str()));
            },
        }
        assert(texts(lines@) =~= from_lines(*query, names@, (index + 1) as nat));
        assert(texts(lines@).len() == lines@.len());
        assert(before.len() >= 2);
        index = index + 1;
    }
    lines
}

/// Adds the lines of the conditions.
fn push_conditions(lines: &mut Vec<String>, clauses: &Vec<String>)
    ensures
        texts(final(lines)@) == texts(old(lines)@) + where_lines(conditions(clauses@)),
{
    let ghost start = texts(lines@);
    let mut first = true;
    let mut i: usize = 0;
    assert(texts(lines@) =~= start + where_lines(Seq::empty()));
    while i < clauses.len()
        invariant
            i <= clauses.len(),
            texts(lines@) == start + where_lines(conditions(clauses@.take(i as int))),
            first == (conditions(clauses@.take(i as int)).len() == 0),
        decreases clauses.len() - i,
    {
        let ghost next = clauses@.take(i + 1);
        let ghost before = conditions(clauses@.take(i as int));
        assert(next.drop_last() =~= clauses@.take(i as int));
        assert(next.last() == clauses@[i as int]);
        let clause = trimmed(clauses[i].as_str());
        if !clause.is_empty() {
            if first {
                push_line(lines, after("WHERE ", clause));
                first = false;
            } else {
                push_line(lines, after("  AND ", clause));
            }
            assert(texts(lines@) =~= start + where_lines(before.push(clause@)));
        }
        i = i + 1;
    }
    assert(clauses@.take(clauses@.len() as int) =~= clauses@);
}

/// The terms of the sort.
fn order_of(names: &Vec<SpelledTable>, list: &Vec<((usize, usize), SortDir)>) -> (r: Vec<String>)
    ensures
        texts(r@) == order_terms(names@, list@),
{
    let mut out: Vec<String> = Vec::new();
    let mut i: usize = 0;
    assert(texts(out@) =~= Seq::<Seq<char>>::empty());
    while i < list.len()
        invariant
            i <= list.len(),
            texts(out@) == order_terms(names@, list@.take(i as int)),
        decreases list.len() - i,
    {
        let ghost next = list@.take(i + 1);
        assert(next.drop_last() =~= list@.take(i as int));
        assert(next.last() == list@[i as int]);
        match column(names, list[i].0) {
            Some(text) => {
                let mut term = after(text, " ");
                term.append(list[i].1.keyword());
                push_line(&mut out, term);
            },
            None => {},
        }
        i = i + 1;
    }
    assert(list@.take(list@.len() as int) =~= list@);
    out
}

/// The `SELECT` the builder's state describes.
///
/// Laid out over several lines with the continuations indented two spaces, and
/// with no trailing semicolon. A query with no tables in it has no statement, and
/// comes out empty rather than as a `SELECT *` over nothing.
pub fn generate(query: &BuilderQuery, names: &Vec<SpelledTable>) -> (r: String)
    requires
        spells(names@, *query),
    ensures
        r@ == statement(*query, names@),
{
    if query.tables.len() == 0 {
        return String::new();
    }
    let mut lines = lines_from(query, names);
    push_conditions(&mut lines, &query.where_clauses);
    let grouped = columns_of(names, &query.group_by);
    assert(texts(grouped@).len() == grouped@.len());
    let ghost so_far = texts(lines@);
    if grouped.len() > 0 {
        let list = joined(&grouped, ", ");
        push_line(&mut lines, after("GROUP BY ", list.as_str()));
    }
    assert(texts(lines@) =~= so_far + group_lines(names@, query.group_by@));
    let ghost so_far = texts(lines@);
    let ordered = order_of(names, &query.order_by);
    assert(texts(ordered@).len() == ordered@.len());
    if ordered.len() > 0 {
        let list = joined(&ordered, ", ");
        push_line(&mut lines, after("ORDER BY ", list.as_str()));
    }
    assert(texts(lines@) =~= so_far + order_lines(names@, query.order_by@));
    joined(&lines, "\n")
}

/// Whether a table is attached by a join, and not by a comma.
pub open spec fn is_joined(query: BuilderQuery, names: Seq<SpelledTable>, index: int) -> bool {
    first_kind(query.joins@, index) is Some && join_terms(names, query.joins@, index).len() > 0
}

/// The line of a table, without the comma a table after it may put behind it.
pub open spec fn table_line(query: BuilderQuery, names: Seq<SpelledTable>, index: int) -> Seq<char> {
    let table = table_text(query.tables@[index], names[index]);
    if index == 0 {
        "FROM "@ + table
    } else if is_joined(query, names, index) {
        "  "@ + join_keyword(first_kind(query.joins@, index).unwrap()) + " JOIN "@ + table + " ON "@
            + join(join_terms(names, query.joins@, index), " AND "@)
    } else {
        "  "@ + table
    }
}

/// The statement names every table once, in the order they were added: each has
/// a line of its own, and a line ends in a comma exactly where nothing joins the
/// next table to what came before.
pub proof fn the_tables_keep_their_order(
    query: BuilderQuery,
    names: Seq<SpelledTable>,
    count: nat,
)
    requires
        1 <= count <= query.tables@.len(),
    ensures
        from_lines(query, names, count).len() == count + 1,
        from_lines(query, names, count)[0] == select_line(names, query.selected@),
        forall|i: int|
            0 <= i < count ==> #[trigger] from_lines(query, names, count)[i + 1] == if i + 1 < count
                && !is_joined(query, names, i + 1) {
                table_line(query, names, i) + ","@
            } else {
                table_line(query, names, i)
            },
    decreases count,
{
    if count > 1 {
        let fewer = (count - 1) as nat;
        the_tables_keep_their_order(query, names, fewer);
        let before = from_lines(query, names, fewer);
        let lines = from_lines(query, names, count);
        assert(lines.len() == count + 1);
        assert forall|i: int| 0 <= i < count implies #[trigger] lines[i + 1] == if i + 1 < count
            && !is_joined(query, names, i + 1) {
            table_line(query, names, i) + ","@
        } else {
            table_line(query, names, i)
        } by {
            if i < fewer {
                assert(before[i + 1] == if i + 1 < fewer && !is_joined(query, names, i + 1) {
                    table_line(query, names, i) + ","@
                } else {
                    table_line(query, names, i)
                });
            }
        }
    }
}

/// Whether two edges relate the same columns in the same way, whichever end each
/// was drawn from.
pub open spec fn same_edge(a: Join, b: Join) -> bool {
    a.kind == b.kind && ((a.from == b.from && a.to == b.to) || (a.from == b.to && a.to == b.from))
}

/// Two queries with the same tables, picks, conditions, groups and sorts.
pub open spec fn alike_but_for_joins(a: BuilderQuery, b: BuilderQuery) -> bool {
    a.tables == b.tables && a.selected == b.selected && a.where_clauses == b.where_clauses
        && a.group_by == b.group_by && a.order_by == b.order_by
}

/// An edge says which columns match, and not which of them it was drawn from: a
/// query whose edges are turned round is written as the same statement.
pub proof fn an_edge_has_no_direction(
    query: BuilderQuery,
    turned: BuilderQuery,
    names: Seq<SpelledTable>,
)
    requires
        alike_but_for_joins(query, turned),
        turned.joins@.len() == query.joins@.len(),
        forall|i: int|
            0 <= i < query.joins@.len() ==> same_edge(#[trigger] query.joins@[i], turned.joins@[i]),
    ensures
        statement(turned, names) == statement(query, names),
{
    if query.tables@.len() > 0 {
        lemma_turned_lines(query, turned, names, query.tables@.len());
    }
}

/// The lines of the tables do not depend on where the edges were drawn from.
proof fn lemma_turned_lines(
    query: BuilderQuery,
    turned: BuilderQuery,
    names: Seq<SpelledTable>,
    count: nat,
)
    requires
        alike_but_for_joins(query, turned),
        turned.joins@.len() == query.joins@.len(),
        forall|i: int|
            0 <= i < query.joins@.len() ==> same_edge(#[trigger] query.joins@[i], turned.joins@[i]),
    ensures
        from_lines(turned, names, count) == from_lines(query, names, count),
    decreases count,
{
    if count > 1 {
        lemma_turned_lines(query, turned, names, (count - 1) as nat);
        lemma_turned_terms(query.joins@, turned.joins@, names, count - 1);
    }
}

/// Nor do the conditions and the kind of a join.
proof fn lemma_turned_terms(a: Seq<Join>, b: Seq<Join>, names: Seq<SpelledTable>, index: int)
    requires
        a.len() == b.len(),
        forall|i: int| 0 <= i < a.len() ==> same_edge(#[trigger] a[i], b[i]),
    ensures
        join_terms(names, b, index) == join_terms(names, a, index),
        first_kind(b, index) == first_kind(a, index),
    decreases a.len(),
{
    if a.len() > 0 {
        assert forall|i: int| 0 <= i < a.drop_last().len() implies same_edge(
            #[trigger] a.drop_last()[i],
            b.drop_last()[i],
        ) by {
            assert(same_edge(a[i], b[i]));
        }
        lemma_turned_terms(a.drop_last(), b.drop_last(), names, index);
        assert(same_edge(a[a.len() - 1], b[a.len() - 1]));
    }
}

/// A row of conditions that is blank is no condition: with one more of them, at
/// any place, the statement is the same.
pub proof fn a_blank_condition_says_nothing(
    query: BuilderQuery,
    padded: BuilderQuery,
    names: Seq<SpelledTable>,
    at: int,
    blank: String,
)
    requires
        padded.tables == query.tables,
        padded.joins == query.joins,
        padded.selected == query.selected,
        padded.group_by == query.group_by,
        padded.order_by == query.order_by,
        0 <= at <= query.where_clauses@.len(),
        padded.where_clauses@ == query.where_clauses@.insert(at, blank),
        trim(blank@).len() == 0,
    ensures
        statement(padded, names) == statement(query, names),
{
    lemma_blank_condition(query.where_clauses@, at, blank);
    if query.tables@.len() > 0 {
        lemma_same_from(query, padded, names, query.tables@.len());
    }
}

/// The lines of the tables do not depend on the conditions.
proof fn lemma_same_from(
    query: BuilderQuery,
    padded: BuilderQuery,
    names: Seq<SpelledTable>,
    count: nat,
)
    requires
        padded.tables == query.tables,
        padded.joins == query.joins,
        padded.selected == query.selected,
    ensures
        from_lines(padded, names, count) == from_lines(query, names, count),
    decreases count,
{
    if count > 1 {
        lemma_same_from(query, padded, names, (count - 1) as nat);
    }
}

/// A blank text among the conditions is none of them.
proof fn lemma_blank_condition(clauses: Seq<String>, at: int, blank: String)
    requires
        0 <= at <= clauses.len(),
        trim(blank@).len() == 0,
    ensures
        conditions(clauses.insert(at, blank)) == conditions(clauses),
    decreases clauses.len(),
{
    let padded = clauses.insert(at, blank);
    if at == clauses.len() {
        assert(padded.drop_last() =~= clauses);
        assert(padded.last() == blank);
    } else {
        assert(padded.drop_last() =~= clauses.drop_last().insert(at, blank));
        assert(padded.last() == clauses.last());
        lemma_blank_condition(clauses.drop_last(), at, blank);
    }
}

/// The places of a list that the query has.
pub open spec fn places_there(names: Seq<SpelledTable>, list: Seq<(usize, usize)>) -> Seq<
    (usize, usize),
> {
    list.filter(|at: (usize, usize)| column_text(names, at) is Some)
}

/// The terms of a sort that are on columns the query has.
pub open spec fn sorts_there(
    names: Seq<SpelledTable>,
    list: Seq<((usize, usize), SortDir)>,
) -> Seq<((usize, usize), SortDir)> {
    list.filter(|sort: ((usize, usize), SortDir)| column_text(names, sort.0) is Some)
}

/// Tidying a query up changes nothing: with its conditions trimmed and the blank
/// ones gone, and without the picks, the groups and the sorts on columns it does
/// not have, it is written as the same statement. The edges stay as they are: the
/// first that reaches back gives the join its kind, whatever its columns.
pub proof fn tidying_up_changes_nothing(
    query: BuilderQuery,
    tidy: BuilderQuery,
    names: Seq<SpelledTable>,
)
    requires
        tidy.tables == query.tables,
        tidy.joins == query.joins,
        texts(tidy.where_clauses@) == conditions(query.where_clauses@),
        tidy.selected@ == places_there(names, query.selected@),
        tidy.group_by@ == places_there(names, query.group_by@),
        tidy.order_by@ == sorts_there(names, query.order_by@),
    ensures
        statement(tidy, names) == statement(query, names),
{
    lemma_places_there(names, query.selected@);
    lemma_places_there(names, query.group_by@);
    lemma_sorts_there(names, query.order_by@);
    lemma_conditions_are_tidy(query.where_clauses@);
    lemma_tidy_conditions(tidy.where_clauses@);
    if query.tables@.len() > 0 {
        lemma_same_select(query, tidy, names, query.tables@.len());
    }
}

/// The columns of a list are written as those of it that the query has.
proof fn lemma_places_there(names: Seq<SpelledTable>, list: Seq<(usize, usize)>)
    ensures
        column_texts(names, places_there(names, list)) == column_texts(names, list),
    decreases list.len(),
{
    reveal(Seq::filter);
    if list.len() > 0 {
        lemma_places_there(names, list.drop_last());
        let fewer = places_there(names, list.drop_last());
        if column_text(names, list.last()) is Some {
            assert(places_there(names, list) == fewer.push(list.last()));
            assert(fewer.push(list.last()).drop_last() =~= fewer);
        } else {
            assert(places_there(names, list) == fewer);
        }
    }
}

/// A sort is written as those of its terms that are on columns the query has.
proof fn lemma_sorts_there(names: Seq<SpelledTable>, list: Seq<((usize, usize), SortDir)>)
    ensures
        order_terms(names, sorts_there(names, list)) == order_terms(names, list),
    decreases list.len(),
{
    reveal(Seq::filter);
    if list.len() > 0 {
        lemma_sorts_there(names, list.drop_last());
        let fewer = sorts_there(names, list.drop_last());
        if column_text(names, list.last().0) is Some {
            assert(sorts_there(names, list) == fewer.push(list.last()));
            assert(fewer.push(list.last()).drop_last() =~= fewer);
        } else {
            assert(sorts_there(names, list) == fewer);
        }
    }
}

/// Each condition says something and has no white space around it.
proof fn lemma_conditions_are_tidy(clauses: Seq<String>)
    ensures
        forall|i: int|
            0 <= i < conditions(clauses).len() ==> (#[trigger] conditions(clauses)[i]).len() > 0
                && trim(conditions(clauses)[i]) == conditions(clauses)[i],
    decreases clauses.len(),
{
    if clauses.len() > 0 {
        let before = conditions(clauses.drop_last());
        let all = conditions(clauses);
        lemma_conditions_are_tidy(clauses.drop_last());
        trimming_once_is_enough(clauses.last()@);
        assert forall|i: int| 0 <= i < all.len() implies (#[trigger] all[i]).len() > 0 && trim(all[i])
            == all[i] by {
            if i < before.len() {
                assert(all[i] == before[i]);
            }
        }
    }
}

/// Conditions that say something and have no white space around them are taken as
/// they are.
proof fn lemma_tidy_conditions(clauses: Seq<String>)
    requires
        forall|i: int|
            0 <= i < texts(clauses).len() ==> (#[trigger] texts(clauses)[i]).len() > 0 && trim(
                texts(clauses)[i],
            ) == texts(clauses)[i],
    ensures
        conditions(clauses) == texts(clauses),
    decreases clauses.len(),
{
    if clauses.len() > 0 {
        let fewer = clauses.drop_last();
        assert forall|i: int| 0 <= i < texts(fewer).len() implies (#[trigger] texts(fewer)[i]).len() > 0
            && trim(texts(fewer)[i]) == texts(fewer)[i] by {
            assert(texts(fewer)[i] == texts(clauses)[i]);
        }
        lemma_tidy_conditions(fewer);
        assert(texts(clauses)[clauses.len() - 1] == clauses.last()@);
        assert(texts(clauses) =~= texts(fewer).push(clauses.last()@));
    }
}

/// The lines of the tables depend on how the picked columns are written.
proof fn lemma_same_select(
    query: BuilderQuery,
    tidy: BuilderQuery,
    names: Seq<SpelledTable>,
    count: nat,
)
    requires
        tidy.tables == query.tables,
        tidy.joins == query.joins,
        column_texts(names, tidy.selected@) == column_texts(names, query.selected@),
    ensures
        from_lines(tidy, names, count) == from_lines(query, names, count),
    decreases count,
{
    if count > 1 {
        lemma_same_select(query, tidy, names, (count - 1) as nat);
    }
}

} // verus!
