//! What the statement of a query is made of, clause by clause and table by table.

use vstd::prelude::*;

use crate::builder_sql::{
    column_texts, conditions, first_kind, from_lines, group_lines, join_term, join_terms,
    order_lines, order_terms, parts_of, reaches_back, select_line, statement, statement_lines, where_lines,
    BuilderQuery, Join, JoinKind, SortDir, SpelledTable,
};
use crate::text::{join, joining_one_more, joining_two_lists, trim};

verus! {

/// Whether the query has a column at the place.
pub open spec fn there(names: Seq<SpelledTable>, at: (usize, usize)) -> bool {
    at.0 < names.len() && at.1 < names[at.0 as int].columns@.len()
}

/// How the column at a place is spelled.
pub open spec fn spelled(names: Seq<SpelledTable>, at: (usize, usize)) -> Seq<char> {
    names[at.0 as int].columns@[at.1 as int]@
}

/// The columns of a list that the query has, as they are spelled and in the order
/// of the list.
pub open spec fn spelled_columns(names: Seq<SpelledTable>, list: Seq<(usize, usize)>) -> Seq<
    Seq<char>,
> {
    list.filter(|at: (usize, usize)| there(names, at)).map_values(
        |at: (usize, usize)| spelled(names, at),
    )
}

/// The terms of a sort on columns the query has, each with its direction.
pub open spec fn spelled_sorts(
    names: Seq<SpelledTable>,
    list: Seq<((usize, usize), SortDir)>,
) -> Seq<Seq<char>> {
    list.filter(|sort: ((usize, usize), SortDir)| there(names, sort.0)).map_values(
        |sort: ((usize, usize), SortDir)|
            spelled(names, sort.0) + match sort.1 {
                SortDir::Asc => " ASC"@,
                SortDir::Desc => " DESC"@,
            },
    )
}

/// The conditions that say something, without the white space around them.
pub open spec fn said_conditions(clauses: Seq<String>) -> Seq<Seq<char>> {
    clauses.filter(|clause: String| trim(clause@).len() > 0).map_values(
        |clause: String| trim(clause@),
    )
}

/// A clause that opens with `opening` and lists `parts`, where there are any.
pub open spec fn clause(opening: Seq<char>, parts: Seq<Seq<char>>, between: Seq<char>) -> Seq<char> {
    if parts.len() == 0 {
        Seq::empty()
    } else {
        opening + join(parts, between)
    }
}

proof fn lemma_columns(names: Seq<SpelledTable>, list: Seq<(usize, usize)>)
    ensures
        column_texts(names, list) == spelled_columns(names, list),
    decreases list.len(),
{
    reveal(Seq::filter);
    if list.len() > 0 {
        lemma_columns(names, list.drop_last());
    }
    assert(column_texts(names, list) =~= spelled_columns(names, list));
}

proof fn lemma_sorts(names: Seq<SpelledTable>, list: Seq<((usize, usize), SortDir)>)
    ensures
        order_terms(names, list) == spelled_sorts(names, list),
    decreases list.len(),
{
    reveal(Seq::filter);
    reveal_strlit(" ");
    reveal_strlit("ASC");
    reveal_strlit(" ASC");
    reveal_strlit("DESC");
    reveal_strlit(" DESC");
    assert(" "@ + "ASC"@ =~= " ASC"@);
    assert(" "@ + "DESC"@ =~= " DESC"@);
    if list.len() > 0 {
        lemma_sorts(names, list.drop_last());
        let column = spelled(names, list.last().0);
        assert(column + " "@ + "ASC"@ =~= column + " ASC"@);
        assert(column + " "@ + "DESC"@ =~= column + " DESC"@);
    }
    assert(order_terms(names, list) =~= spelled_sorts(names, list));
}

proof fn lemma_conditions(clauses: Seq<String>)
    ensures
        conditions(clauses) == said_conditions(clauses),
    decreases clauses.len(),
{
    reveal(Seq::filter);
    if clauses.len() > 0 {
        lemma_conditions(clauses.drop_last());
    }
    assert(conditions(clauses) =~= said_conditions(clauses));
}

proof fn lemma_where(list: Seq<Seq<char>>)
    requires
        list.len() > 0,
    ensures
        join(where_lines(list), "\n"@) == "WHERE "@ + join(list, "\n  AND "@),
    decreases list.len(),
{
    let lines = where_lines(list);
    let fewer = list.drop_last();
    let last = list.last();
    assert(list =~= fewer.push(last));
    joining_one_more(fewer, "\n  AND "@, last);
    if fewer.len() == 0 {
        assert(lines =~= seq!["WHERE "@ + last]);
    } else {
        reveal_strlit("\n");
        reveal_strlit("  AND ");
        reveal_strlit("\n  AND ");
        assert("\n"@ + "  AND "@ =~= "\n  AND "@);
        lemma_where(fewer);
        assert(lines =~= where_lines(fewer).push("  AND "@ + last));
        joining_one_more(where_lines(fewer), "\n"@, "  AND "@ + last);
        assert(join(lines, "\n"@) =~= "WHERE "@ + (join(fewer, "\n  AND "@) + "\n  AND "@ + last));
    }
}

/// Lines put behind others in one text.
proof fn lemma_behind(a: Seq<Seq<char>>, b: Seq<Seq<char>>)
    requires
        a.len() > 0,
    ensures
        join(a + b, "\n"@) == join(a, "\n"@) + (if b.len() == 0 {
            Seq::empty()
        } else {
            "\n"@ + join(b, "\n"@)
        }),
{
    if b.len() > 0 {
        joining_two_lists(a, b, "\n"@);
        assert(join(a + b, "\n"@) =~= join(a, "\n"@) + ("\n"@ + join(b, "\n"@)));
    } else {
        assert(a + b =~= a);
        assert(join(a, "\n"@) + Seq::<char>::empty() =~= join(a, "\n"@));
    }
}

/// The lines of the tables: the first picks the columns, and the rest do not
/// depend on what is picked.
proof fn lemma_from(query: BuilderQuery, bare: BuilderQuery, names: Seq<SpelledTable>, count: nat)
    requires
        bare.tables == query.tables,
        bare.joins == query.joins,
        bare.selected@.len() == 0,
    ensures
        from_lines(query, names, count).len() >= 2,
        from_lines(bare, names, count).len() == from_lines(query, names, count).len(),
        from_lines(query, names, count)[0] == select_line(names, query.selected@),
        from_lines(bare, names, count)[0] == "SELECT *"@,
        forall|i: int|
            1 <= i < from_lines(query, names, count).len() ==> #[trigger] from_lines(
                query,
                names,
                count,
            )[i] == from_lines(bare, names, count)[i],
    decreases count,
{
    if count > 1 {
        lemma_from(query, bare, names, (count - 1) as nat);
    }
}

/// The clauses of a statement. `bare` is the query with its tables and edges
/// alone: the statement picks every column of the list that there is, in order,
/// where the bare one picks everything; goes on as the bare one does; and ends in
/// the conditions, the columns grouped by and the columns sorted by, each list
/// whole and in order.
pub proof fn a_statement_has_every_clause(
    query: BuilderQuery,
    bare: BuilderQuery,
    names: Seq<SpelledTable>,
)
    requires
        query.tables@.len() > 0,
        bare.tables == query.tables,
        bare.joins == query.joins,
        bare.selected@.len() == 0,
        bare.where_clauses@.len() == 0,
        bare.group_by@.len() == 0,
        bare.order_by@.len() == 0,
    ensures
        exists|rest: Seq<char>|
            {
                &&& statement(bare, names) == "SELECT *"@ + rest
                &&& statement(query, names) == (if spelled_columns(names, query.selected@).len()
                    == 0 {
                    "SELECT *"@
                } else {
                    "SELECT "@ + join(spelled_columns(names, query.selected@), ", "@)
                }) + rest + clause(
                    "\nWHERE "@,
                    said_conditions(query.where_clauses@),
                    "\n  AND "@,
                ) + clause("\nGROUP BY "@, spelled_columns(names, query.group_by@), ", "@) + clause(
                    "\nORDER BY "@,
                    spelled_sorts(names, query.order_by@),
                    ", "@,
                )
            },
{
    let count = query.tables@.len();
    lemma_from(query, bare, names, count);
    lemma_columns(names, query.selected@);
    lemma_columns(names, query.group_by@);
    lemma_sorts(names, query.order_by@);
    lemma_conditions(query.where_clauses@);
    let from = from_lines(query, names, count);
    let plain = from_lines(bare, names, count);
    let body = from.subrange(1, from.len() as int);
    assert(from =~= seq![from[0]] + body);
    assert(plain =~= seq![plain[0]] + body);
    lemma_behind(seq![from[0]], body);
    lemma_behind(seq![plain[0]], body);
    let rest = "\n"@ + join(body, "\n"@);
    let wheres = where_lines(conditions(query.where_clauses@));
    let groups = group_lines(names, query.group_by@);
    let orders = order_lines(names, query.order_by@);
    lemma_behind(from, wheres);
    lemma_behind(from + wheres, groups);
    lemma_behind(from + wheres + groups, orders);
    let conds = said_conditions(query.where_clauses@);
    let grouped = spelled_columns(names, query.group_by@);
    let sorted = spelled_sorts(names, query.order_by@);
    reveal_strlit("\n");
    reveal_strlit("WHERE ");
    reveal_strlit("\nWHERE ");
    reveal_strlit("GROUP BY ");
    reveal_strlit("\nGROUP BY ");
    reveal_strlit("ORDER BY ");
    reveal_strlit("\nORDER BY ");
    assert("\n"@ + "WHERE "@ =~= "\nWHERE "@);
    assert("\n"@ + "GROUP BY "@ =~= "\nGROUP BY "@);
    assert("\n"@ + "ORDER BY "@ =~= "\nORDER BY "@);
    if conds.len() > 0 {
        lemma_where(conds);
        assert("\n"@ + ("WHERE "@ + join(conds, "\n  AND "@)) =~= clause(
            "\nWHERE "@,
            conds,
            "\n  AND "@,
        ));
    }
    if grouped.len() > 0 {
        assert(join(groups, "\n"@) == "GROUP BY "@ + join(grouped, ", "@));
        assert("\n"@ + ("GROUP BY "@ + join(grouped, ", "@)) =~= clause("\nGROUP BY "@, grouped, ", "@));
    }
    if sorted.len() > 0 {
        assert(join(orders, "\n"@) == "ORDER BY "@ + join(sorted, ", "@));
        assert("\n"@ + ("ORDER BY "@ + join(sorted, ", "@)) =~= clause("\nORDER BY "@, sorted, ", "@));
    }
    assert(statement_lines(bare, names) =~= plain);
    assert(statement(bare, names) =~= "SELECT *"@ + rest);
    let head = from[0];
    assert(join(from, "\n"@) =~= head + rest);
    assert(statement(query, names) =~= head + rest + clause("\nWHERE "@, conds, "\n  AND "@) + clause(
        "\nGROUP BY "@,
        grouped,
        ", "@,
    ) + clause("\nORDER BY "@, sorted, ", "@));
}

/// A list of places one longer: the columns are one more where the query has it.
proof fn lemma_one_column_more(names: Seq<SpelledTable>, list: Seq<(usize, usize)>, at: (usize, usize))
    ensures
        spelled_columns(names, list.push(at)) == (if there(names, at) {
            spelled_columns(names, list).push(spelled(names, at))
        } else {
            spelled_columns(names, list)
        }),
{
    reveal(Seq::filter);
    assert(list.push(at).drop_last() =~= list);
    assert(spelled_columns(names, list.push(at)) =~= (if there(names, at) {
        spelled_columns(names, list).push(spelled(names, at))
    } else {
        spelled_columns(names, list)
    }));
}

/// Grouping by one column more writes it behind the statement, which no sort
/// follows: behind a comma where a column is grouped by already, and in a line of
/// its own where it is the first. A column the query does not have changes
/// nothing.
pub proof fn grouping_by_one_more(
    query: BuilderQuery,
    more: BuilderQuery,
    bare: BuilderQuery,
    names: Seq<SpelledTable>,
    at: (usize, usize),
)
    requires
        query.tables@.len() > 0,
        more.tables == query.tables,
        more.joins == query.joins,
        more.selected == query.selected,
        more.where_clauses == query.where_clauses,
        more.group_by@ == query.group_by@.push(at),
        query.order_by@.len() == 0,
        more.order_by@.len() == 0,
        bare.tables == query.tables,
        bare.joins == query.joins,
        bare.selected@.len() == 0,
        bare.where_clauses@.len() == 0,
        bare.group_by@.len() == 0,
        bare.order_by@.len() == 0,
    ensures
        !there(names, at) ==> statement(more, names) == statement(query, names),
        there(names, at) ==> statement(more, names) == statement(query, names) + (if exists|i: int|
            0 <= i < query.group_by@.len() && there(names, #[trigger] query.group_by@[i]) {
            ", "@
        } else {
            "\nGROUP BY "@
        }) + spelled(names, at),
{
    a_statement_has_every_clause(query, bare, names);
    a_statement_has_every_clause(more, bare, names);
    lemma_one_column_more(names, query.group_by@, at);
    lemma_some_column(names, query.group_by@);
    let before = spelled_columns(names, query.group_by@);
    joining_one_more(before, ", "@, spelled(names, at));
    reveal(Seq::filter);
    let rest = choose|rest: Seq<char>| statement(bare, names) == #[trigger] ("SELECT *"@ + rest);
    lemma_rest(statement(bare, names), rest);
    if there(names, at) {
        let start = statement(query, names);
        assert(statement(more, names) =~= start + (if before.len() > 0 {
            ", "@
        } else {
            "\nGROUP BY "@
        }) + spelled(names, at));
    }
}

/// What follows a head is one thing only.
proof fn lemma_rest(whole: Seq<char>, rest: Seq<char>)
    requires
        whole == "SELECT *"@ + rest,
    ensures
        forall|other: Seq<char>| whole == #[trigger] ("SELECT *"@ + other) ==> other == rest,
{
    assert forall|other: Seq<char>| whole == #[trigger] ("SELECT *"@ + other) implies other == rest by {
        let n = "SELECT *"@.len() as int;
        assert(whole.subrange(n, whole.len() as int) =~= rest);
        assert(whole.subrange(n, whole.len() as int) =~= other);
    }
}

/// A list names a column the query has exactly where one of its places is there.
proof fn lemma_some_column(names: Seq<SpelledTable>, list: Seq<(usize, usize)>)
    ensures
        spelled_columns(names, list).len() > 0 <==> exists|i: int|
            0 <= i < list.len() && there(names, #[trigger] list[i]),
    decreases list.len(),
{
    reveal(Seq::filter);
    if list.len() > 0 {
        let fewer = list.drop_last();
        lemma_some_column(names, fewer);
        if exists|i: int| 0 <= i < fewer.len() && there(names, #[trigger] fewer[i]) {
            let i = choose|i: int| 0 <= i < fewer.len() && there(names, #[trigger] fewer[i]);
            assert(list[i] == fewer[i]);
        }
        if exists|i: int| 0 <= i < list.len() && there(names, #[trigger] list[i]) {
            let i = choose|i: int| 0 <= i < list.len() && there(names, #[trigger] list[i]);
            if i < fewer.len() {
                assert(fewer[i] == list[i]);
            } else {
                assert(there(names, list.last()));
            }
        }
        if there(names, list.last()) {
            assert(there(names, list[list.len() - 1]));
        }
    }
}

/// Whether an edge ties table `index` to one that stands before it.
pub open spec fn ties_back(edge: Join, index: int) -> bool {
    (edge.from.0 == index && edge.to.0 < index) || (edge.to.0 == index && edge.from.0 < index)
}

/// Whether an edge ties table `index` to one before it by columns the query has.
pub open spec fn ties_columns(names: Seq<SpelledTable>, edge: Join, index: int) -> bool {
    ties_back(edge, index) && there(names, edge.from) && there(names, edge.to)
}

/// The condition of an edge: the column of the earlier table first.
pub open spec fn tie(names: Seq<SpelledTable>, edge: Join) -> Seq<char> {
    if edge.from.0 < edge.to.0 {
        spelled(names, edge.from) + " = "@ + spelled(names, edge.to)
    } else {
        spelled(names, edge.to) + " = "@ + spelled(names, edge.from)
    }
}

/// The conditions that tie table `index` to the ones before it.
pub open spec fn ties(names: Seq<SpelledTable>, joins: Seq<Join>, index: int) -> Seq<Seq<char>> {
    joins.filter(|edge: Join| ties_columns(names, edge, index)).map_values(
        |edge: Join| tie(names, edge),
    )
}

proof fn lemma_ties(names: Seq<SpelledTable>, joins: Seq<Join>, index: int)
    ensures
        join_terms(names, joins, index) == ties(names, joins, index),
        first_kind(joins, index) == (if joins.filter(|edge: Join| ties_back(edge, index)).len() > 0 {
            Some(joins.filter(|edge: Join| ties_back(edge, index))[0].kind)
        } else {
            None
        }),
    decreases joins.len(),
{
    reveal(Seq::filter);
    if joins.len() > 0 {
        lemma_ties(names, joins.drop_last(), index);
        let edge = joins.last();
        assert(reaches_back(edge, index) == ties_back(edge, index));
        if ties_columns(names, edge, index) {
            assert(join_term(names, edge, index) == Some(tie(names, edge)));
        }
    }
    assert(join_terms(names, joins, index) =~= ties(names, joins, index));
}

/// The statement of a query without picks and clauses is its lines up to the last
/// table.
proof fn lemma_bare(bare: BuilderQuery, names: Seq<SpelledTable>)
    requires
        bare.tables@.len() > 0,
        bare.where_clauses@.len() == 0,
        bare.group_by@.len() == 0,
        bare.order_by@.len() == 0,
    ensures
        statement(bare, names) == join(from_lines(bare, names, bare.tables@.len()), "\n"@),
{
    assert(statement_lines(bare, names) =~= from_lines(bare, names, bare.tables@.len()));
}

/// The lines of fewer tables do not depend on the later ones.
proof fn lemma_fewer_tables(a: BuilderQuery, b: BuilderQuery, names: Seq<SpelledTable>, count: nat)
    requires
        1 <= count <= a.tables@.len(),
        a.tables@ == b.tables@.take(a.tables@.len() as int),
        a.tables@.len() <= b.tables@.len(),
        a.joins == b.joins,
        a.selected@ == b.selected@,
    ensures
        from_lines(a, names, count) == from_lines(b, names, count),
        from_lines(a, names, count).len() >= 2,
    decreases count,
{
    if count > 1 {
        lemma_fewer_tables(a, b, names, (count - 1) as nat);
        assert(a.tables@[count - 1] == b.tables@[count - 1]);
    } else {
        assert(a.tables@[0] == b.tables@[0]);
    }
}

/// One table alone: the statement reads it, under its alias where that is not its
/// name. No table has no statement.
pub proof fn one_table_is_read(query: BuilderQuery, names: Seq<SpelledTable>)
    requires
        query.tables@.len() <= 1,
        query.selected@.len() == 0,
        query.where_clauses@.len() == 0,
        query.group_by@.len() == 0,
        query.order_by@.len() == 0,
    ensures
        query.tables@.len() == 0 ==> statement(query, names).len() == 0,
        query.tables@.len() == 1 ==> statement(query, names) == "SELECT *\nFROM "@
            + names[0].reference@ + (if query.tables@[0].alias@ == query.tables@[0].name@ {
            Seq::empty()
        } else {
            " "@ + names[0].alias@
        }),
{
    if query.tables@.len() == 1 {
        lemma_bare(query, names);
        let lines = from_lines(query, names, 1);
        assert(lines =~= seq![lines[0]].push(lines[1]));
        joining_one_more(seq![lines[0]], "\n"@, lines[1]);
        reveal_strlit("SELECT *");
        reveal_strlit("\n");
        reveal_strlit("FROM ");
        reveal_strlit("SELECT *\nFROM ");
        assert("SELECT *"@ + "\n"@ + "FROM "@ =~= "SELECT *\nFROM "@);
        assert(statement(query, names) =~= "SELECT *\nFROM "@ + names[0].reference@ + (
        if query.tables@[0].alias@ == query.tables@[0].name@ {
            Seq::empty()
        } else {
            " "@ + names[0].alias@
        }));
    }
}

/// One table more goes behind the statement: joined by every edge that ties one
/// of its columns to a column of a table before it, in the order they were drawn
/// and as the first edge to any table before it says; or behind a comma where no
/// edge does.
pub proof fn one_table_more_is_attached(
    query: BuilderQuery,
    more: BuilderQuery,
    names: Seq<SpelledTable>,
)
    requires
        query.tables@.len() > 0,
        more.tables@.len() == query.tables@.len() + 1,
        query.tables@ == more.tables@.take(query.tables@.len() as int),
        more.joins == query.joins,
        query.selected@.len() == 0,
        query.where_clauses@.len() == 0,
        query.group_by@.len() == 0,
        query.order_by@.len() == 0,
        more.selected@.len() == 0,
        more.where_clauses@.len() == 0,
        more.group_by@.len() == 0,
        more.order_by@.len() == 0,
    ensures
        ({
            let index = query.tables@.len() as int;
            let table = names[index].reference@ + (if more.tables@[index].alias@
                == more.tables@[index].name@ {
                Seq::empty()
            } else {
                " "@ + names[index].alias@
            });
            let tied = ties(names, query.joins@, index);
            let first = query.joins@.filter(|edge: Join| ties_back(edge, index))[0];
            statement(more, names) == statement(query, names) + (if tied.len() == 0 {
                ",\n  "@ + table
            } else {
                (match first.kind {
                    JoinKind::Inner => "\n  INNER JOIN "@,
                    JoinKind::Left => "\n  LEFT JOIN "@,
                    JoinKind::Right => "\n  RIGHT JOIN "@,
                    JoinKind::Full => "\n  FULL JOIN "@,
                }) + table + " ON "@ + join(tied, " AND "@)
            })
        }),
{
    let index = query.tables@.len() as int;
    lemma_bare(query, names);
    lemma_bare(more, names);
    assert(query.selected@ =~= more.selected@);
    lemma_fewer_tables(query, more, names, index as nat);
    lemma_ties(names, query.joins@, index);
    lemma_tied_back(names, query.joins@, index);
    let before = from_lines(query, names, index as nat);
    let after = from_lines(more, names, (index + 1) as nat);
    let table = names[index].reference@ + (if more.tables@[index].alias@
        == more.tables@[index].name@ {
        Seq::empty()
    } else {
        " "@ + names[index].alias@
    });
    assert(table =~= crate::builder_sql::table_text(more.tables@[index], names[index]));
    let tied = ties(names, query.joins@, index);
    reveal_strlit("\n");
    reveal_strlit("  ");
    reveal_strlit(",");
    reveal_strlit(",\n  ");
    if tied.len() == 0 {
        let shorter = before.drop_last();
        assert(before =~= shorter.push(before.last()));
        assert(after =~= shorter.push(before.last() + ","@).push("  "@ + table));
        joining_one_more(shorter, "\n"@, before.last());
        joining_one_more(shorter, "\n"@, before.last() + ","@);
        joining_one_more(shorter.push(before.last() + ","@), "\n"@, "  "@ + table);
        assert(","@ + "\n"@ + "  "@ =~= ",\n  "@);
        assert(join(after, "\n"@) =~= join(before, "\n"@) + (",\n  "@ + table));
    } else {
        reveal_strlit("INNER");
        reveal_strlit("LEFT");
        reveal_strlit("RIGHT");
        reveal_strlit("FULL");
        reveal_strlit(" JOIN ");
        reveal_strlit("\n  INNER JOIN ");
        reveal_strlit("\n  LEFT JOIN ");
        reveal_strlit("\n  RIGHT JOIN ");
        reveal_strlit("\n  FULL JOIN ");
        assert("\n"@ + "  "@ + "INNER"@ + " JOIN "@ =~= "\n  INNER JOIN "@);
        assert("\n"@ + "  "@ + "LEFT"@ + " JOIN "@ =~= "\n  LEFT JOIN "@);
        assert("\n"@ + "  "@ + "RIGHT"@ + " JOIN "@ =~= "\n  RIGHT JOIN "@);
        assert("\n"@ + "  "@ + "FULL"@ + " JOIN "@ =~= "\n  FULL JOIN "@);
        let kind = first_kind(query.joins@, index).unwrap();
        let word = crate::builder_sql::join_keyword(kind);
        let line = "  "@ + word + " JOIN "@ + table + " ON "@ + join(tied, " AND "@);
        assert(after =~= before.push(line));
        joining_one_more(before, "\n"@, line);
        let opening = "\n"@ + "  "@ + word + " JOIN "@;
        assert(join(after, "\n"@) =~= join(before, "\n"@) + (opening + table + " ON "@ + join(
            tied,
            " AND "@,
        )));
    }
}

/// Where columns tie a table to one before it, an edge does.
proof fn lemma_tied_back(names: Seq<SpelledTable>, joins: Seq<Join>, index: int)
    ensures
        ties(names, joins, index).len() > 0 ==> joins.filter(
            |edge: Join| ties_back(edge, index),
        ).len() > 0,
    decreases joins.len(),
{
    reveal(Seq::filter);
    if joins.len() > 0 {
        lemma_tied_back(names, joins.drop_last(), index);
    }
}

/// A table is read and written under one name of at most two parts: its own name,
/// behind its schema where it has one, and behind its catalogue where it has that
/// alone.
pub proof fn a_table_is_named_by_its_schema(
    catalog: Option<Seq<char>>,
    schema: Option<Seq<char>>,
    name: Seq<char>,
)
    ensures
        parts_of(catalog, schema, name).last() == name,
        schema is Some && schema.unwrap().len() > 0 ==> parts_of(catalog, schema, name) == seq![
            schema.unwrap(),
            name,
        ],
        (schema is None || schema.unwrap().len() == 0) && catalog is Some && catalog.unwrap().len()
            > 0 ==> parts_of(catalog, schema, name) == seq![catalog.unwrap(), name],
        (schema is None || schema.unwrap().len() == 0) && (catalog is None || catalog.unwrap().len()
            == 0) ==> parts_of(catalog, schema, name) == seq![name],
{
}

} // verus!
