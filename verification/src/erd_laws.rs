//! Why a diagram comes out the same on the next fetch: neither its boxes nor its
//! lines depend on the order the driver answered in.

use vstd::multiset::Multiset;
use vstd::prelude::*;

use crate::erd_pane::{
    all_edges, box_columns, box_of, column_key, columns_in_order, columns_reported, edge_of, group_key,
    groups_of, imported_texts, is_foreign, is_table_list, lines_of, maybe_texts, ordered_pairs, pair_key, row_counts,
    seq_of, table_edges, with_row, ColumnItemText, EdgeText, ErdColumnText, GroupText, ImportedText, Scope, TableKeys,
};
use crate::ordered::{less_irreflexive, less_transitive, text_less};
use crate::sorting::{
    in_order, key_less, keys_are_ordered, part_less, place_before, sorting_forgets_the_order,
    sorting_keeps_and_orders, sorting_orders_every_place, stable_order, told_apart, KeyText,
};
use crate::text::maybe_text;

verus! {

/// One column of a key: its place, its name, and the column it references.
type Pair = (i64, Seq<char>, Seq<char>);

/// The pair a row reports.
pub open spec fn pair_of(row: ImportedText) -> (i64, Seq<char>, Seq<char>) {
    (seq_of(row), row.fk_column.unwrap(), row.pk_column.unwrap())
}

/// Whether a row counts, and belongs to the constraint.
pub open spec fn row_is_of(
    row: ImportedText,
    scope: Scope,
    name: Option<Seq<char>>,
    to: Seq<char>,
) -> bool {
    row_counts(row, scope) && row.fk_name == name && row.pk_table == Some(to)
}

/// The pairs the rows report for one constraint, in the order of the rows.
spec fn pairs_for(
    rows: Seq<ImportedText>,
    scope: Scope,
    name: Option<Seq<char>>,
    to: Seq<char>,
) -> Seq<Pair>
    decreases rows.len(),
{
    if rows.len() == 0 {
        Seq::empty()
    } else {
        let before = pairs_for(rows.drop_last(), scope, name, to);
        if row_is_of(rows.last(), scope, name, to) {
            before.push(pair_of(rows.last()))
        } else {
            before
        }
    }
}

/// Whether the groups are distinct, and each holds what the rows report for it.
spec fn groups_fit(groups: Seq<GroupText>, rows: Seq<ImportedText>, scope: Scope) -> bool {
    &&& forall|i: int, j: int|
        0 <= i < groups.len() && 0 <= j < groups.len() && i != j ==> (#[trigger] groups[i]).name != (
        #[trigger] groups[j]).name || groups[i].to != groups[j].to
    &&& forall|i: int|
        0 <= i < groups.len() ==> (#[trigger] groups[i]).pairs == pairs_for(
            rows,
            scope,
            groups[i].name,
            groups[i].to,
        )
    &&& forall|i: int| 0 <= i < groups.len() ==> (#[trigger] groups[i]).pairs.len() > 0
    &&& forall|name: Option<Seq<char>>, to: Seq<char>|
        (#[trigger] pairs_for(rows, scope, name, to)).len() > 0 ==> exists|i: int|
            0 <= i < groups.len() && (#[trigger] groups[i]).name == name && groups[i].to == to
}

/// What putting a row into groups does to each of them.
proof fn lemma_with_row(groups: Seq<GroupText>, row: ImportedText)
    requires
        row.pk_table is Some,
        forall|i: int, j: int|
            0 <= i < groups.len() && 0 <= j < groups.len() && i != j ==> (#[trigger] groups[i]).name
                != (#[trigger] groups[j]).name || groups[i].to != groups[j].to,
    ensures
        ({
            let after = with_row(groups, row);
            let to = row.pk_table.unwrap();
            let known = exists|i: int|
                0 <= i < groups.len() && (#[trigger] groups[i]).name == row.fk_name && groups[i].to == to;
            &&& known ==> after.len() == groups.len()
            &&& !known ==> after.len() == groups.len() + 1 && after.last() == (GroupText {
                name: row.fk_name,
                to,
                pairs: seq![pair_of(row)],
            })
            &&& forall|i: int|
                0 <= i < groups.len() ==> (#[trigger] after[i]).name == groups[i].name && after[i].to
                    == groups[i].to && after[i].pairs == (if groups[i].name == row.fk_name
                    && groups[i].to == to {
                    groups[i].pairs.push(pair_of(row))
                } else {
                    groups[i].pairs
                })
        }),
    decreases groups.len(),
{
    let to = row.pk_table.unwrap();
    if groups.len() > 0 && !(groups[0].name == row.fk_name && groups[0].to == to) {
        let rest = groups.subrange(1, groups.len() as int);
        assert forall|i: int, j: int|
            0 <= i < rest.len() && 0 <= j < rest.len() && i != j implies (#[trigger] rest[i]).name != (
        #[trigger] rest[j]).name || rest[i].to != rest[j].to by {
            assert(rest[i] == groups[i + 1] && rest[j] == groups[j + 1]);
        }
        lemma_with_row(rest, row);
        let inner = with_row(rest, row);
        let after = with_row(groups, row);
        assert(after == seq![groups[0]] + inner);
        let known = exists|i: int|
            0 <= i < groups.len() && (#[trigger] groups[i]).name == row.fk_name && groups[i].to == to;
        let known_rest = exists|i: int|
            0 <= i < rest.len() && (#[trigger] rest[i]).name == row.fk_name && rest[i].to == to;
        if known {
            let i = choose|i: int|
                0 <= i < groups.len() && (#[trigger] groups[i]).name == row.fk_name && groups[i].to == to;
            assert(rest[i - 1] == groups[i]);
            assert(known_rest);
        }
        if known_rest {
            let i = choose|i: int|
                0 <= i < rest.len() && (#[trigger] rest[i]).name == row.fk_name && rest[i].to == to;
            assert(groups[i + 1] == rest[i]);
            assert(known);
        }
        assert forall|i: int| 0 <= i < groups.len() implies (#[trigger] after[i]).name
            == groups[i].name && after[i].to == groups[i].to && after[i].pairs == (if groups[i].name
            == row.fk_name && groups[i].to == to {
            groups[i].pairs.push(pair_of(row))
        } else {
            groups[i].pairs
        }) by {
            if i > 0 {
                assert(after[i] == inner[i - 1]);
                assert(rest[i - 1] == groups[i]);
            }
        }
    } else if groups.len() > 0 {
        let after = with_row(groups, row);
        assert forall|i: int| 0 <= i < groups.len() implies (#[trigger] after[i]).name
            == groups[i].name && after[i].to == groups[i].to && after[i].pairs == (if groups[i].name
            == row.fk_name && groups[i].to == to {
            groups[i].pairs.push(pair_of(row))
        } else {
            groups[i].pairs
        }) by {
            if i > 0 {
                assert(after[i] == groups[i]);
                assert(groups[i].name != groups[0].name || groups[i].to != groups[0].to);
            }
        }
        assert(groups[0].name == row.fk_name && groups[0].to == to);
    }
}

/// Grouping the rows gives one group per constraint, with its pairs.
proof fn lemma_groups(rows: Seq<ImportedText>, scope: Scope)
    ensures
        groups_fit(groups_of(rows, scope), rows, scope),
    decreases rows.len(),
{
    if rows.len() > 0 {
        let fewer = rows.drop_last();
        let row = rows.last();
        lemma_groups(fewer, scope);
        let groups = groups_of(fewer, scope);
        let after = groups_of(rows, scope);
        if row_counts(row, scope) {
            let to = row.pk_table.unwrap();
            lemma_with_row(groups, row);
            let known = exists|i: int|
                0 <= i < groups.len() && (#[trigger] groups[i]).name == row.fk_name && groups[i].to == to;
            if !known {
                assert(pairs_for(fewer, scope, row.fk_name, to).len() == 0);
                assert(pairs_for(fewer, scope, row.fk_name, to) =~= Seq::<Pair>::empty());
                assert(pairs_for(rows, scope, row.fk_name, to) =~= seq![pair_of(row)]);
            }
            assert forall|i: int| 0 <= i < after.len() implies (#[trigger] after[i]).pairs == pairs_for(
                rows,
                scope,
                after[i].name,
                after[i].to,
            ) && after[i].pairs.len() > 0 by {
                if i < groups.len() {
                    assert(groups[i].pairs == pairs_for(fewer, scope, groups[i].name, groups[i].to));
                }
            }
            assert forall|i: int, j: int|
                0 <= i < after.len() && 0 <= j < after.len() && i != j implies (
            #[trigger] after[i]).name != (#[trigger] after[j]).name || after[i].to != after[j].to by {
                if i < groups.len() && j < groups.len() {
                    assert(groups[i].name != groups[j].name || groups[i].to != groups[j].to);
                } else if i < groups.len() {
                    assert(!(groups[i].name == row.fk_name && groups[i].to == to));
                } else {
                    assert(!(groups[j].name == row.fk_name && groups[j].to == to));
                }
            }
            assert forall|name: Option<Seq<char>>, dest: Seq<char>|
                (#[trigger] pairs_for(rows, scope, name, dest)).len() > 0 implies exists|i: int|
                0 <= i < after.len() && (#[trigger] after[i]).name == name && after[i].to == dest by {
                if pairs_for(fewer, scope, name, dest).len() > 0 {
                    let i = choose|i: int|
                        0 <= i < groups.len() && (#[trigger] groups[i]).name == name && groups[i].to
                            == dest;
                    assert(after[i].name == name && after[i].to == dest);
                } else {
                    assert(name == row.fk_name && dest == to);
                    if known {
                        let i = choose|i: int|
                            0 <= i < groups.len() && (#[trigger] groups[i]).name == row.fk_name
                                && groups[i].to == to;
                        assert(after[i].name == name && after[i].to == dest);
                    } else {
                        assert(after[after.len() - 1].name == name);
                    }
                }
            }
        } else {
            assert(after == groups);
            assert forall|i: int| 0 <= i < after.len() implies (#[trigger] after[i]).pairs == pairs_for(
                rows,
                scope,
                after[i].name,
                after[i].to,
            ) by {
                assert(groups[i].pairs == pairs_for(fewer, scope, groups[i].name, groups[i].to));
            }
            assert forall|name: Option<Seq<char>>, dest: Seq<char>|
                (#[trigger] pairs_for(rows, scope, name, dest)).len() > 0 implies exists|i: int|
                0 <= i < after.len() && (#[trigger] after[i]).name == name && after[i].to == dest by {
                assert(pairs_for(fewer, scope, name, dest).len() > 0);
            }
        }
    }
}

/// The pairs of one constraint, however the rows are ordered.
spec fn pair_bag(scope: Scope, name: Option<Seq<char>>, to: Seq<char>) -> spec_fn(
    Multiset<Pair>,
    ImportedText,
) -> Multiset<Pair> {
    |bag: Multiset<Pair>, row: ImportedText|
        if row_is_of(row, scope, name, to) {
            bag.insert(pair_of(row))
        } else {
            bag
        }
}

/// The pairs a list of rows reports are those its rows report one by one.
proof fn lemma_pair_bag(
    rows: Seq<ImportedText>,
    scope: Scope,
    name: Option<Seq<char>>,
    to: Seq<char>,
)
    ensures
        pairs_for(rows, scope, name, to).to_multiset() == rows.fold_left(
            Multiset::empty(),
            pair_bag(scope, name, to),
        ),
    decreases rows.len(),
{
    broadcast use vstd::seq_lib::group_to_multiset_ensures;

    if rows.len() == 0 {
        assert(pairs_for(rows, scope, name, to).to_multiset() =~= Multiset::empty());
    } else {
        lemma_pair_bag(rows.drop_last(), scope, name, to);
        let before = pairs_for(rows.drop_last(), scope, name, to);
        if row_is_of(rows.last(), scope, name, to) {
            before.to_multiset_ensures();
            assert(before.push(pair_of(rows.last())).to_multiset() =~= before.to_multiset().insert(
                pair_of(rows.last()),
            ));
        }
    }
}

/// The same rows in another order report the same pairs for each constraint.
proof fn lemma_same_pairs(
    a: Seq<ImportedText>,
    b: Seq<ImportedText>,
    scope: Scope,
    name: Option<Seq<char>>,
    to: Seq<char>,
)
    requires
        a.to_multiset() == b.to_multiset(),
    ensures
        pairs_for(a, scope, name, to).to_multiset() == pairs_for(b, scope, name, to).to_multiset(),
{
    let f = pair_bag(scope, name, to);
    assert(vstd::seq_lib::commutative_foldl(f)) by {
        assert forall|x: ImportedText, y: ImportedText, v: Multiset<Pair>| #[trigger]
            f(f(v, x), y) == f(f(v, y), x) by {
            assert(f(f(v, x), y) =~= f(f(v, y), x));
        }
    }
    lemma_pair_bag(a, scope, name, to);
    lemma_pair_bag(b, scope, name, to);
    vstd::seq_lib::lemma_fold_left_permutation(a, b, f, Multiset::empty());
}

/// The same pairs in another order come out the same, as long as no two of them
/// share a place and a name and reference different columns.
proof fn lemma_same_sorted(a: Seq<Pair>, b: Seq<Pair>)
    requires
        a.to_multiset() == b.to_multiset(),
        forall|i: int, j: int|
            0 <= i < a.len() && 0 <= j < a.len() && (#[trigger] a[i]).0 == (#[trigger] a[j]).0
                && a[i].1 == a[j].1 ==> a[i].2 == a[j].2,
    ensures
        ordered_pairs(a) == ordered_pairs(b),
{
    let key = |p: Pair| pair_key(p);
    assert(told_apart(a, key)) by {
        assert forall|i: int, j: int|
            0 <= i < a.len() && 0 <= j < a.len() && key(#[trigger] a[i]) == key(
                #[trigger] a[j],
            ) implies a[i] == a[j] by {
            assert(a[i].0 == a[j].0 && a[i].1 == a[j].1);
        }
    }
    sorting_forgets_the_order(a, b, key);
    sorting_orders_every_place(a.map_values(key), a.len());
    sorting_orders_every_place(b.map_values(key), b.len());
    assert(ordered_pairs(a) =~= in_order(a, key).map_values(|p: Pair| (p.1, p.2)));
    assert(ordered_pairs(b) =~= in_order(b, key).map_values(|p: Pair| (p.1, p.2)));
}

/// What an edge is ordered by.
spec fn edge_key(edge: EdgeText) -> KeyText {
    KeyText { number: 0, first: Some(edge.to), second: edge.name }
}

/// Whether the edges ascend.
spec fn edges_ascend(edges: Seq<EdgeText>) -> bool {
    forall|i: int, j: int|
        0 <= i < j < edges.len() ==> key_less(edge_key(#[trigger] edges[i]), edge_key(#[trigger] edges[j]))
}

/// Two ascending lists with the same edges are the same.
proof fn lemma_same_ascending(a: Seq<EdgeText>, b: Seq<EdgeText>)
    requires
        edges_ascend(a),
        edges_ascend(b),
        forall|e: EdgeText| #[trigger] a.contains(e) <==> b.contains(e),
    ensures
        a == b,
    decreases a.len(),
{
    if a.len() == 0 {
        if b.len() > 0 {
            assert(b.contains(b[0]));
            assert(a.contains(b[0]));
        }
        assert(a =~= b);
    } else {
        assert(a.contains(a[0]));
        assert(b.len() > 0);
        assert(a.contains(a[a.len() - 1]) && b.contains(b[b.len() - 1]));
        assert(a.contains(b[b.len() - 1]));
        let j = choose|j: int| 0 <= j < b.len() && b[j] == a.last();
        let i = choose|i: int| 0 <= i < a.len() && a[i] == b.last();
        if j < b.len() - 1 {
            assert(key_less(edge_key(b[j]), edge_key(b[b.len() - 1])));
            if i < a.len() - 1 {
                assert(key_less(edge_key(a[i]), edge_key(a[a.len() - 1])));
            }
            keys_are_ordered(edge_key(a.last()), edge_key(b.last()), edge_key(a.last()));
        }
        let shorter_a = a.drop_last();
        let shorter_b = b.drop_last();
        assert forall|e: EdgeText| #[trigger] shorter_a.contains(e) <==> shorter_b.contains(e) by {
            keys_are_ordered(edge_key(e), edge_key(e), edge_key(e));
            if shorter_a.contains(e) {
                let k = choose|k: int| 0 <= k < shorter_a.len() && shorter_a[k] == e;
                assert(a[k] == e);
                assert(key_less(edge_key(a[k]), edge_key(a[a.len() - 1])));
                assert(a.contains(e));
                let l = choose|l: int| 0 <= l < b.len() && b[l] == e;
                assert(shorter_b[l] == e);
            }
            if shorter_b.contains(e) {
                let k = choose|k: int| 0 <= k < shorter_b.len() && shorter_b[k] == e;
                assert(b[k] == e);
                assert(key_less(edge_key(b[k]), edge_key(b[b.len() - 1])));
                assert(b.contains(e));
                assert(a.contains(e));
                let l = choose|l: int| 0 <= l < a.len() && a[l] == e;
                assert(shorter_a[l] == e);
            }
        }
        assert forall|x: int, y: int| 0 <= x < y < shorter_a.len() implies key_less(
            edge_key(#[trigger] shorter_a[x]),
            edge_key(#[trigger] shorter_a[y]),
        ) by {
            assert(key_less(edge_key(a[x]), edge_key(a[y])));
        }
        assert forall|x: int, y: int| 0 <= x < y < shorter_b.len() implies key_less(
            edge_key(#[trigger] shorter_b[x]),
            edge_key(#[trigger] shorter_b[y]),
        ) by {
            assert(key_less(edge_key(b[x]), edge_key(b[y])));
        }
        lemma_same_ascending(shorter_a, shorter_b);
        assert(a =~= shorter_a.push(a.last()));
        assert(b =~= shorter_b.push(b.last()));
    }
}

/// The edges of a table ascend by the table referenced and the constraint's name.
proof fn lemma_edges_ascend(table: Seq<char>, rows: Seq<ImportedText>, scope: Scope)
    ensures
        edges_ascend(table_edges(table, rows, scope)),
        forall|e: EdgeText| #[trigger]
            table_edges(table, rows, scope).contains(e) <==> exists|i: int|
                0 <= i < groups_of(rows, scope).len() && edge_of(
                    table,
                    #[trigger] groups_of(rows, scope)[i],
                ) == e,
{
    let groups = groups_of(rows, scope);
    let keys = groups.map_values(|g: GroupText| group_key(g));
    let order = stable_order(keys);
    let edges = table_edges(table, rows, scope);
    lemma_groups(rows, scope);
    sorting_orders_every_place(keys, keys.len());
    assert forall|i: int, j: int| 0 <= i < j < edges.len() implies key_less(
        edge_key(#[trigger] edges[i]),
        edge_key(#[trigger] edges[j]),
    ) by {
        let x = order[i];
        let y = order[j];
        assert(place_before(keys, x, y));
        keys_are_ordered(keys[x], keys[y], keys[x]);
        keys_are_ordered(keys[x], keys[x], keys[x]);
        if x == y {
            assert(false);
        }
        assert(groups[x].name != groups[y].name || groups[x].to != groups[y].to);
        assert(keys[x] != keys[y]);
    }
    assert forall|e: EdgeText| #[trigger] edges.contains(e) <==> exists|i: int|
        0 <= i < groups.len() && edge_of(table, #[trigger] groups[i]) == e by {
        if edges.contains(e) {
            let k = choose|k: int| 0 <= k < edges.len() && edges[k] == e;
            assert(0 <= order[k] < groups.len());
            assert(edge_of(table, groups[order[k]]) == e);
        }
        if exists|i: int| 0 <= i < groups.len() && edge_of(table, #[trigger] groups[i]) == e {
            let i = choose|i: int| 0 <= i < groups.len() && edge_of(table, #[trigger] groups[i]) == e;
            assert(order.contains(i));
            let k = choose|k: int| 0 <= k < order.len() && order[k] == i;
            assert(edges[k] == e);
        }
    }
}

/// The lines of a table ascend by the table they reference and then by the name
/// of the constraint, one without a name first; so no two of them have both in
/// common.
pub proof fn edges_ascend_by_table_and_name(
    table: Seq<char>,
    rows: Seq<ImportedText>,
    scope: Scope,
)
    ensures
        ({
            let edges = table_edges(table, rows, scope);
            forall|i: int, j: int|
                0 <= i < j < edges.len() ==> text_less(
                    (#[trigger] edges[i]).to,
                    (#[trigger] edges[j]).to,
                ) || (edges[i].to == edges[j].to && part_less(edges[i].name, edges[j].name))
        }),
{
    lemma_edges_ascend(table, rows, scope);
    let edges = table_edges(table, rows, scope);
    assert forall|i: int, j: int| 0 <= i < j < edges.len() implies text_less(
        (#[trigger] edges[i]).to,
        (#[trigger] edges[j]).to,
    ) || (edges[i].to == edges[j].to && part_less(edges[i].name, edges[j].name)) by {
        assert(key_less(edge_key(edges[i]), edge_key(edges[j])));
    }
}

/// A pair reported for a constraint was reported by one of the rows.
proof fn lemma_pair_has_row(
    rows: Seq<ImportedText>,
    scope: Scope,
    name: Option<Seq<char>>,
    to: Seq<char>,
    k: int,
) -> (i: int)
    requires
        0 <= k < pairs_for(rows, scope, name, to).len(),
    ensures
        0 <= i < rows.len(),
        row_is_of(rows[i], scope, name, to),
        pair_of(rows[i]) == pairs_for(rows, scope, name, to)[k],
    decreases rows.len(),
{
    let before = pairs_for(rows.drop_last(), scope, name, to);
    if k < before.len() {
        lemma_pair_has_row(rows.drop_last(), scope, name, to, k)
    } else {
        rows.len() - 1
    }
}

/// The edges of one list of rows are among those of the same rows in another
/// order.
proof fn lemma_edges_among(
    table: Seq<char>,
    a: Seq<ImportedText>,
    b: Seq<ImportedText>,
    scope: Scope,
    e: EdgeText,
)
    requires
        a.to_multiset() == b.to_multiset(),
        pairs_are_told_apart(a, scope),
        table_edges(table, a, scope).contains(e),
    ensures
        table_edges(table, b, scope).contains(e),
{
    lemma_edges_ascend(table, a, scope);
    lemma_edges_ascend(table, b, scope);
    lemma_groups(a, scope);
    lemma_groups(b, scope);
    let groups_a = groups_of(a, scope);
    let groups_b = groups_of(b, scope);
    let i = choose|i: int| 0 <= i < groups_a.len() && edge_of(table, #[trigger] groups_a[i]) == e;
    let name = groups_a[i].name;
    let to = groups_a[i].to;
    lemma_same_pairs(a, b, scope, name, to);
    let pairs_a = pairs_for(a, scope, name, to);
    let pairs_b = pairs_for(b, scope, name, to);
    assert(groups_a[i].pairs == pairs_a);
    pairs_a.to_multiset_ensures();
    pairs_b.to_multiset_ensures();
    assert(pairs_b.len() > 0);
    let j = choose|j: int|
        0 <= j < groups_b.len() && (#[trigger] groups_b[j]).name == name && groups_b[j].to == to;
    assert(groups_b[j].pairs == pairs_b);
    assert forall|x: int, y: int|
        0 <= x < pairs_a.len() && 0 <= y < pairs_a.len() && (#[trigger] pairs_a[x]).0 == (
        #[trigger] pairs_a[y]).0 && pairs_a[x].1 == pairs_a[y].1 implies pairs_a[x].2 == pairs_a[y].2 by {
        let k = lemma_pair_has_row(a, scope, name, to, x);
        let l = lemma_pair_has_row(a, scope, name, to, y);
        assert(row_counts(a[k], scope) && row_counts(a[l], scope));
    }
    lemma_same_sorted(pairs_a, pairs_b);
    assert(edge_of(table, groups_b[j]) == e);
}

/// Whether no two columns of one constraint share a place and a name and
/// reference different columns.
pub open spec fn pairs_are_told_apart(rows: Seq<ImportedText>, scope: Scope) -> bool {
    forall|k: int, l: int|
        0 <= k < rows.len() && 0 <= l < rows.len() && row_counts(#[trigger] rows[k], scope)
            && row_counts(#[trigger] rows[l], scope) && rows[k].fk_name == rows[l].fk_name
            && rows[k].pk_table == rows[l].pk_table && seq_of(rows[k]) == seq_of(rows[l])
            && rows[k].fk_column == rows[l].fk_column ==> rows[k].pk_column == rows[l].pk_column
}

/// Two fetches over the same schema produce the same lines, whatever order the
/// driver answered in, as long as no column stands twice at one place of a key
/// with different references.
pub proof fn edges_do_not_depend_on_the_order(
    table: Seq<char>,
    a: Seq<ImportedText>,
    b: Seq<ImportedText>,
    scope: Scope,
)
    requires
        a.to_multiset() == b.to_multiset(),
        pairs_are_told_apart(a, scope),
    ensures
        table_edges(table, a, scope) == table_edges(table, b, scope),
{
    a.to_multiset_ensures();
    b.to_multiset_ensures();
    assert(pairs_are_told_apart(b, scope)) by {
        assert forall|k: int, l: int|
            0 <= k < b.len() && 0 <= l < b.len() && row_counts(#[trigger] b[k], scope) && row_counts(
                #[trigger] b[l],
                scope,
            ) && b[k].fk_name == b[l].fk_name && b[k].pk_table == b[l].pk_table && seq_of(b[k])
                == seq_of(b[l]) && b[k].fk_column == b[l].fk_column implies b[k].pk_column
            == b[l].pk_column by {
            assert(b.contains(b[k]) && b.contains(b[l]));
            assert(a.to_multiset().count(b[k]) > 0 && a.to_multiset().count(b[l]) > 0);
            assert(a.contains(b[k]) && a.contains(b[l]));
            let x = choose|x: int| 0 <= x < a.len() && a[x] == b[k];
            let y = choose|y: int| 0 <= y < a.len() && a[y] == b[l];
            assert(row_counts(a[x], scope) && row_counts(a[y], scope));
        }
    }
    lemma_edges_ascend(table, a, scope);
    lemma_edges_ascend(table, b, scope);
    assert forall|e: EdgeText| #[trigger]
        table_edges(table, a, scope).contains(e) <==> table_edges(table, b, scope).contains(e) by {
        if table_edges(table, a, scope).contains(e) {
            lemma_edges_among(table, a, b, scope, e);
        }
        if table_edges(table, b, scope).contains(e) {
            lemma_edges_among(table, b, a, scope, e);
        }
    }
    lemma_same_ascending(table_edges(table, a, scope), table_edges(table, b, scope));
}

/// How often a column is reported of a table: as often as it is reported at all,
/// where it is one of the table's.
proof fn lemma_reported(items: Seq<ColumnItemText>, table: Seq<char>, column: ColumnItemText)
    ensures
        columns_reported(items, table).to_multiset().count(column) == if column.table == Some(table) {
            items.to_multiset().count(column)
        } else {
            0
        },
    decreases items.len(),
{
    broadcast use vstd::seq_lib::group_to_multiset_ensures;

    if items.len() > 0 {
        let fewer = items.drop_last();
        lemma_reported(fewer, table, column);
        assert(items =~= fewer.push(items.last()));
        fewer.to_multiset_ensures();
        columns_reported(fewer, table).to_multiset_ensures();
    }
}

/// Whether two columns of a table that share a place and a name are one.
pub open spec fn columns_are_told_apart(items: Seq<ColumnItemText>, table: Seq<char>) -> bool {
    told_apart(columns_reported(items, table), |c: ColumnItemText| column_key(c))
}

/// The columns of a box come out in the same order whatever order the driver
/// answered in.
pub proof fn columns_do_not_depend_on_the_order(
    table: Seq<char>,
    a: Seq<ColumnItemText>,
    b: Seq<ColumnItemText>,
)
    requires
        a.to_multiset() == b.to_multiset(),
        columns_are_told_apart(a, table),
    ensures
        columns_in_order(a, table) == columns_in_order(b, table),
{
    let key = |c: ColumnItemText| column_key(c);
    let mine_a = columns_reported(a, table);
    let mine_b = columns_reported(b, table);
    assert forall|c: ColumnItemText| #[trigger] mine_a.to_multiset().count(c)
        == mine_b.to_multiset().count(c) by {
        lemma_reported(a, table, c);
        lemma_reported(b, table, c);
    }
    assert(mine_a.to_multiset() =~= mine_b.to_multiset());
    sorting_forgets_the_order(mine_a, mine_b, key);
    assert(columns_in_order(a, table) =~= in_order(mine_a, key));
    assert(columns_in_order(b, table) =~= in_order(mine_b, key));
}

/// The columns of a box depend on which columns are keys, and not on the order
/// they were reported in.
proof fn lemma_same_box_columns(
    items: Seq<ColumnItemText>,
    primary_a: Seq<Option<Seq<char>>>,
    primary_b: Seq<Option<Seq<char>>>,
    imported_a: Seq<ImportedText>,
    imported_b: Seq<ImportedText>,
)
    requires
        primary_a.to_multiset() == primary_b.to_multiset(),
        imported_a.to_multiset() == imported_b.to_multiset(),
    ensures
        box_columns(items, primary_a, imported_a) == box_columns(items, primary_b, imported_b),
    decreases items.len(),
{
    if items.len() > 0 {
        lemma_same_box_columns(items.drop_last(), primary_a, primary_b, imported_a, imported_b);
        match items.last().name {
            Some(name) => {
                primary_a.to_multiset_ensures();
                primary_b.to_multiset_ensures();
                assert(primary_a.contains(Some(name)) <==> primary_a.to_multiset().count(Some(name)) > 0);
                assert(primary_b.contains(Some(name)) <==> primary_b.to_multiset().count(Some(name)) > 0);
                lemma_foreign_among(imported_a, imported_b, name);
                lemma_foreign_among(imported_b, imported_a, name);
            },
            None => {},
        }
    }
}

/// A column that is a foreign key in one list of rows is one in the same rows in
/// another order.
proof fn lemma_foreign_among(a: Seq<ImportedText>, b: Seq<ImportedText>, column: Seq<char>)
    requires
        a.to_multiset() == b.to_multiset(),
    ensures
        is_foreign(a, column) ==> is_foreign(b, column),
{
    if is_foreign(a, column) {
        let i = choose|i: int| 0 <= i < a.len() && (#[trigger] a[i]).fk_column == Some(column);
        a.to_multiset_ensures();
        b.to_multiset_ensures();
        assert(a.contains(a[i]));
        assert(b.to_multiset().count(a[i]) > 0);
        assert(b.contains(a[i]));
        let j = choose|j: int| 0 <= j < b.len() && b[j] == a[i];
        assert(b[j].fk_column == Some(column));
    }
}

/// Whether the same was reported of a table's keys, in whatever order.
pub open spec fn same_keys(a: TableKeys, b: TableKeys) -> bool {
    &&& maybe_texts(a.primary@).to_multiset() == maybe_texts(b.primary@).to_multiset()
    &&& imported_texts(a.imported@).to_multiset() == imported_texts(b.imported@).to_multiset()
}

/// Two fetches over the same schema produce the same boxes, whatever order the
/// driver answered in, as long as no two columns of a table share a place and a
/// name.
pub proof fn boxes_do_not_depend_on_the_order(
    table: Seq<char>,
    columns_a: Seq<ColumnItemText>,
    columns_b: Seq<ColumnItemText>,
    keys_a: TableKeys,
    keys_b: TableKeys,
)
    requires
        columns_a.to_multiset() == columns_b.to_multiset(),
        columns_are_told_apart(columns_a, table),
        same_keys(keys_a, keys_b),
    ensures
        box_of(columns_a, table, keys_a) == box_of(columns_b, table, keys_b),
{
    columns_do_not_depend_on_the_order(table, columns_a, columns_b);
    lemma_same_box_columns(
        columns_in_order(columns_a, table),
        maybe_texts(keys_a.primary@),
        maybe_texts(keys_b.primary@),
        imported_texts(keys_a.imported@),
        imported_texts(keys_b.imported@),
    );
}

/// Two fetches over the same tables produce the same lines, one table after the
/// other, whatever order the driver answered in.
pub proof fn lines_do_not_depend_on_the_order(
    names: Seq<Seq<char>>,
    a: Seq<TableKeys>,
    b: Seq<TableKeys>,
    scope: Scope,
    n: nat,
)
    requires
        n <= names.len(),
        a.len() == names.len(),
        b.len() == names.len(),
        forall|i: int|
            0 <= i < names.len() ==> same_keys(#[trigger] a[i], b[i]) && pairs_are_told_apart(
                imported_texts(a[i].imported@),
                scope,
            ),
    ensures
        all_edges(names, a, scope, n) == all_edges(names, b, scope, n),
        lines_of(all_edges(names, a, scope, n), names) == lines_of(
            all_edges(names, b, scope, n),
            names,
        ),
    decreases n,
{
    if n > 0 {
        lines_do_not_depend_on_the_order(names, a, b, scope, (n - 1) as nat);
        assert(same_keys(a[n - 1], b[n - 1]));
        edges_do_not_depend_on_the_order(
            names[n - 1],
            imported_texts(a[n - 1].imported@),
            imported_texts(b[n - 1].imported@),
            scope,
        );
    }
}

/// Two lists in dictionary order, each name once, with the same names are the
/// same.
proof fn lemma_one_listing(a: Seq<Seq<char>>, b: Seq<Seq<char>>)
    requires
        forall|i: int, j: int| 0 <= i < j < a.len() ==> text_less(#[trigger] a[i], #[trigger] a[j]),
        forall|i: int, j: int| 0 <= i < j < b.len() ==> text_less(#[trigger] b[i], #[trigger] b[j]),
        forall|name: Seq<char>| #[trigger] a.contains(name) <==> b.contains(name),
    ensures
        a == b,
    decreases a.len(),
{
    if a.len() == 0 {
        if b.len() > 0 {
            assert(b.contains(b[0]));
            assert(a.contains(b[0]));
        }
        assert(a =~= b);
    } else {
        assert(a.contains(a[a.len() - 1]));
        assert(b.contains(a.last()));
        assert(b.contains(b[b.len() - 1]));
        assert(a.contains(b.last()));
        let j = choose|j: int| 0 <= j < b.len() && b[j] == a.last();
        let i = choose|i: int| 0 <= i < a.len() && a[i] == b.last();
        if j < b.len() - 1 {
            assert(text_less(b[j], b[b.len() - 1]));
            less_irreflexive(a.last());
            if i < a.len() - 1 {
                assert(text_less(a[i], a[a.len() - 1]));
                less_transitive(a.last(), b.last(), a.last());
            }
        }
        assert(a.last() == b.last());
        let fewer_a = a.drop_last();
        let fewer_b = b.drop_last();
        assert forall|name: Seq<char>| #[trigger] fewer_a.contains(name) <==> fewer_b.contains(name) by {
            less_irreflexive(name);
            if fewer_a.contains(name) {
                let k = choose|k: int| 0 <= k < fewer_a.len() && fewer_a[k] == name;
                assert(a[k] == name);
                assert(text_less(a[k], a[a.len() - 1]));
                assert(a.contains(name));
                assert(b.contains(name));
                let l = choose|l: int| 0 <= l < b.len() && b[l] == name;
                assert(fewer_b[l] == name);
            }
            if fewer_b.contains(name) {
                let k = choose|k: int| 0 <= k < fewer_b.len() && fewer_b[k] == name;
                assert(b[k] == name);
                assert(text_less(b[k], b[b.len() - 1]));
                assert(b.contains(name));
                assert(a.contains(name));
                let l = choose|l: int| 0 <= l < a.len() && a[l] == name;
                assert(fewer_a[l] == name);
            }
        }
        assert forall|x: int, y: int| 0 <= x < y < fewer_a.len() implies text_less(
            #[trigger] fewer_a[x],
            #[trigger] fewer_a[y],
        ) by {
            assert(text_less(a[x], a[y]));
        }
        assert forall|x: int, y: int| 0 <= x < y < fewer_b.len() implies text_less(
            #[trigger] fewer_b[x],
            #[trigger] fewer_b[y],
        ) by {
            assert(text_less(b[x], b[y]));
        }
        lemma_one_listing(fewer_a, fewer_b);
        assert(a =~= fewer_a.push(a.last()));
        assert(b =~= fewer_b.push(b.last()));
    }
}

/// A table that was reported stands among the tables of a list.
proof fn lemma_listed_name(list: Seq<Seq<char>>, reported: Seq<Option<String>>, name: Seq<char>)
    requires
        is_table_list(list, reported),
    ensures
        list.contains(name) <==> maybe_texts(reported).contains(Some(name)),
{
    let all = maybe_texts(reported);
    if list.contains(name) {
        let i = choose|i: int|
            0 <= i < reported.len() && maybe_text(#[trigger] reported[i]) == Some(name);
        assert(all[i] == Some(name));
    }
    if all.contains(Some(name)) {
        let i = choose|i: int| 0 <= i < all.len() && all[i] == Some(name);
        assert(maybe_text(reported[i]) == Some(name));
    }
}

/// The tables of a diagram come out in the same order whatever order they were
/// reported in, and however often each was.
pub proof fn tables_do_not_depend_on_the_order(
    a: Seq<Seq<char>>,
    b: Seq<Seq<char>>,
    reported: Seq<Option<String>>,
    again: Seq<Option<String>>,
)
    requires
        is_table_list(a, reported),
        is_table_list(b, again),
        maybe_texts(reported).to_set() == maybe_texts(again).to_set(),
    ensures
        a == b,
{
    let first = maybe_texts(reported);
    let second = maybe_texts(again);
    assert forall|name: Seq<char>| #[trigger] a.contains(name) <==> b.contains(name) by {
        lemma_listed_name(a, reported, name);
        lemma_listed_name(b, again, name);
        assert(first.to_set().contains(Some(name)) <==> first.contains(Some(name)));
        assert(second.to_set().contains(Some(name)) <==> second.contains(Some(name)));
    }
    lemma_one_listing(a, b);
}

/// A foreign key has a line exactly where both its ends are among the boxes, also
/// where they are the same box: the lines are those of such keys, one for one and
/// in order, each from the box that holds the key to the box it references, with
/// the name and the columns of the key.
pub proof fn a_key_between_boxes_is_a_line(edges: Seq<EdgeText>, names: Seq<Seq<char>>)
    ensures
        ({
            let inside = edges.filter(
                |edge: EdgeText| names.contains(edge.from) && names.contains(edge.to),
            );
            let lines = lines_of(edges, names);
            &&& lines.len() == inside.len()
            &&& forall|k: int|
                0 <= k < lines.len() ==> {
                    &&& 0 <= (#[trigger] lines[k]).from < names.len()
                    &&& 0 <= lines[k].to < names.len()
                    &&& names[lines[k].from] == inside[k].from
                    &&& names[lines[k].to] == inside[k].to
                    &&& !names.take(lines[k].from).contains(inside[k].from)
                    &&& !names.take(lines[k].to).contains(inside[k].to)
                    &&& lines[k].name == inside[k].name
                    &&& lines[k].columns == inside[k].columns
                }
        }),
    decreases edges.len(),
{
    reveal(Seq::filter);
    if edges.len() > 0 {
        a_key_between_boxes_is_a_line(edges.drop_last(), names);
        let edge = edges.last();
        names.index_of_first_ensures(edge.from);
        names.index_of_first_ensures(edge.to);
        let inside = edges.filter(
            |edge: EdgeText| names.contains(edge.from) && names.contains(edge.to),
        );
        let before = edges.drop_last().filter(
            |edge: EdgeText| names.contains(edge.from) && names.contains(edge.to),
        );
        let lines = lines_of(edges, names);
        let fewer = lines_of(edges.drop_last(), names);
        assert forall|k: int| 0 <= k < lines.len() implies {
            &&& 0 <= (#[trigger] lines[k]).from < names.len()
            &&& 0 <= lines[k].to < names.len()
            &&& names[lines[k].from] == inside[k].from
            &&& names[lines[k].to] == inside[k].to
            &&& !names.take(lines[k].from).contains(inside[k].from)
            &&& !names.take(lines[k].to).contains(inside[k].to)
            &&& lines[k].name == inside[k].name
            &&& lines[k].columns == inside[k].columns
        } by {
            if k < fewer.len() {
                assert(lines[k] == fewer[k]);
                assert(inside[k] == before[k]);
            }
        }
    }
}

/// The keys of a diagram are those of its tables, one table after the other.
pub proof fn the_keys_of_one_table_more(
    names: Seq<Seq<char>>,
    keys: Seq<TableKeys>,
    scope: Scope,
    n: nat,
)
    ensures
        all_edges(names, keys, scope, 0).len() == 0,
        all_edges(names, keys, scope, n + 1) == all_edges(names, keys, scope, n) + table_edges(
            names[n as int],
            imported_texts(keys[n as int].imported@),
            scope,
        ),
{
}

/// Whether a reported column of a key says what it references, and that lies
/// inside the scope: a half that either does not name is not compared.
pub open spec fn points_inside(row: ImportedText, scope: Scope) -> bool {
    &&& row.pk_table is Some && row.pk_column is Some && row.fk_column is Some
    &&& scope.catalog is Some && row.pk_catalog is Some ==> scope.catalog.unwrap()@
        == row.pk_catalog.unwrap()
    &&& scope.schema is Some && row.pk_schema is Some ==> scope.schema.unwrap()@
        == row.pk_schema.unwrap()
}

/// The reported columns of one key: those that point inside the scope, at one
/// table and under one name.
pub open spec fn rows_of_key(
    rows: Seq<ImportedText>,
    scope: Scope,
    name: Option<Seq<char>>,
    to: Seq<char>,
) -> Seq<ImportedText> {
    rows.filter(
        |row: ImportedText|
            points_inside(row, scope) && row.fk_name == name && row.pk_table == Some(to),
    )
}

/// Every column of a key that points inside the scope is on one line of its table:
/// the one to the table it references under the name of its constraint, with the
/// column it references. A line has no other columns, and as many as there are.
pub proof fn every_key_column_is_on_a_line(
    table: Seq<char>,
    rows: Seq<ImportedText>,
    scope: Scope,
)
    ensures
        ({
            let edges = table_edges(table, rows, scope);
            &&& forall|i: int|
                0 <= i < rows.len() && points_inside(#[trigger] rows[i], scope) ==> exists|k: int|
                    0 <= k < edges.len() && (#[trigger] edges[k]).to == rows[i].pk_table.unwrap()
                        && edges[k].name == rows[i].fk_name && edges[k].columns.contains(
                        (rows[i].fk_column.unwrap(), rows[i].pk_column.unwrap()),
                    )
            &&& forall|k: int|
                0 <= k < edges.len() ==> (#[trigger] edges[k]).from == table && edges[k].columns.len()
                    == rows_of_key(rows, scope, edges[k].name, edges[k].to).len()
                    && edges[k].columns.len() > 0
            &&& forall|k: int, pair: (Seq<char>, Seq<char>)|
                0 <= k < edges.len() && #[trigger] edges[k].columns.contains(pair) ==> exists|i: int|
                    0 <= i < rows.len() && points_inside(#[trigger] rows[i], scope) && rows[i].fk_name
                        == edges[k].name && rows[i].pk_table == Some(edges[k].to) && pair.0
                        == rows[i].fk_column.unwrap() && pair.1 == rows[i].pk_column.unwrap()
        }),
{
    let edges = table_edges(table, rows, scope);
    let groups = groups_of(rows, scope);
    lemma_groups(rows, scope);
    lemma_edges_ascend(table, rows, scope);
    assert forall|i: int| 0 <= i < rows.len() && points_inside(#[trigger] rows[i], scope) implies exists|
        k: int,
    |
        0 <= k < edges.len() && (#[trigger] edges[k]).to == rows[i].pk_table.unwrap() && edges[k].name
            == rows[i].fk_name && edges[k].columns.contains(
            (rows[i].fk_column.unwrap(), rows[i].pk_column.unwrap()),
        ) by {
        let name = rows[i].fk_name;
        let to = rows[i].pk_table.unwrap();
        assert(row_is_of(rows[i], scope, name, to));
        let p = lemma_row_has_pair(rows, scope, name, to, i);
        let g = choose|g: int|
            0 <= g < groups.len() && (#[trigger] groups[g]).name == name && groups[g].to == to;
        lemma_ordered_pairs(groups[g].pairs);
        assert(groups[g].pairs[p] == pair_of(rows[i]));
        assert(groups[g].pairs.contains(pair_of(rows[i])));
        let e = edge_of(table, groups[g]);
        assert(edges.contains(e));
        let k = choose|k: int| 0 <= k < edges.len() && edges[k] == e;
        assert(edges[k].columns.contains((rows[i].fk_column.unwrap(), rows[i].pk_column.unwrap())));
    }
    assert forall|k: int| 0 <= k < edges.len() implies (#[trigger] edges[k]).from == table
        && edges[k].columns.len() == rows_of_key(rows, scope, edges[k].name, edges[k].to).len()
        && edges[k].columns.len() > 0 by {
        assert(edges.contains(edges[k]));
        let g = choose|g: int| 0 <= g < groups.len() && edge_of(table, #[trigger] groups[g]) == edges[k];
        lemma_ordered_pairs(groups[g].pairs);
        lemma_pairs_count(rows, scope, edges[k].name, edges[k].to);
    }
    assert forall|k: int, pair: (Seq<char>, Seq<char>)|
        0 <= k < edges.len() && #[trigger] edges[k].columns.contains(pair) implies exists|i: int|
        0 <= i < rows.len() && points_inside(#[trigger] rows[i], scope) && rows[i].fk_name
            == edges[k].name && rows[i].pk_table == Some(edges[k].to) && pair.0
            == rows[i].fk_column.unwrap() && pair.1 == rows[i].pk_column.unwrap() by {
        assert(edges.contains(edges[k]));
        let g = choose|g: int| 0 <= g < groups.len() && edge_of(table, #[trigger] groups[g]) == edges[k];
        lemma_ordered_pairs(groups[g].pairs);
        let p = choose|p: int|
            0 <= p < groups[g].pairs.len() && ((#[trigger] groups[g].pairs[p]).1, groups[g].pairs[p].2)
                == pair;
        let i = lemma_pair_has_row(rows, scope, edges[k].name, edges[k].to, p);
        assert(points_inside(rows[i], scope));
    }
}

/// A row that counts has its pair among those of its constraint.
proof fn lemma_row_has_pair(
    rows: Seq<ImportedText>,
    scope: Scope,
    name: Option<Seq<char>>,
    to: Seq<char>,
    i: int,
) -> (k: int)
    requires
        0 <= i < rows.len(),
        row_is_of(rows[i], scope, name, to),
    ensures
        0 <= k < pairs_for(rows, scope, name, to).len(),
        pairs_for(rows, scope, name, to)[k] == pair_of(rows[i]),
    decreases rows.len(),
{
    if i == rows.len() - 1 {
        pairs_for(rows, scope, name, to).len() as int - 1
    } else {
        lemma_row_has_pair(rows.drop_last(), scope, name, to, i)
    }
}

/// A constraint has as many pairs as it has rows.
proof fn lemma_pairs_count(
    rows: Seq<ImportedText>,
    scope: Scope,
    name: Option<Seq<char>>,
    to: Seq<char>,
)
    ensures
        pairs_for(rows, scope, name, to).len() == rows_of_key(rows, scope, name, to).len(),
    decreases rows.len(),
{
    reveal(Seq::filter);
    if rows.len() > 0 {
        lemma_pairs_count(rows.drop_last(), scope, name, to);
        assert(row_counts(rows.last(), scope) == points_inside(rows.last(), scope));
    }
}

/// Putting pairs in order loses none of them.
proof fn lemma_ordered_pairs(pairs: Seq<Pair>)
    ensures
        ordered_pairs(pairs).len() == pairs.len(),
        forall|p: Pair| #[trigger]
            pairs.contains(p) ==> ordered_pairs(pairs).contains((p.1, p.2)),
        forall|c: (Seq<char>, Seq<char>)| #[trigger]
            ordered_pairs(pairs).contains(c) ==> exists|p: int|
                0 <= p < pairs.len() && ((#[trigger] pairs[p]).1, pairs[p].2) == c,
{
    let keys = pairs.map_values(|p: Pair| pair_key(p));
    let order = stable_order(keys);
    let listed = ordered_pairs(pairs);
    sorting_orders_every_place(keys, keys.len());
    assert forall|p: Pair| #[trigger] pairs.contains(p) implies listed.contains((p.1, p.2)) by {
        let i = choose|i: int| 0 <= i < pairs.len() && pairs[i] == p;
        assert(order.contains(i));
        let k = choose|k: int| 0 <= k < order.len() && order[k] == i;
        assert(listed[k] == (p.1, p.2));
    }
    assert forall|c: (Seq<char>, Seq<char>)| #[trigger] listed.contains(c) implies exists|p: int|
        0 <= p < pairs.len() && ((#[trigger] pairs[p]).1, pairs[p].2) == c by {
        let k = choose|k: int| 0 <= k < listed.len() && listed[k] == c;
        let p = order[k];
        assert((pairs[p].1, pairs[p].2) == c);
    }
}

/// The columns of a line stand in key order: of two columns of one key, the one
/// with the smaller place comes first, and one without a place comes last.
pub proof fn a_line_has_its_columns_in_key_order(
    table: Seq<char>,
    rows: Seq<ImportedText>,
    scope: Scope,
    a: int,
    b: int,
)
    requires
        0 <= a < rows.len(),
        0 <= b < rows.len(),
        points_inside(rows[a], scope),
        points_inside(rows[b], scope),
        rows[a].fk_name == rows[b].fk_name,
        rows[a].pk_table == rows[b].pk_table,
        rows[a].seq is Some,
        rows[b].seq is Some ==> rows[a].seq.unwrap() < rows[b].seq.unwrap(),
        rows[b].seq is None ==> rows[a].seq.unwrap() < i64::MAX,
    ensures
        ({
            let edges = table_edges(table, rows, scope);
            exists|k: int, i: int, j: int| {
                &&& 0 <= k < edges.len()
                &&& edges[k].to == rows[a].pk_table.unwrap()
                &&& edges[k].name == rows[a].fk_name
                &&& 0 <= i < j < edges[k].columns.len()
                &&& #[trigger] edges[k].columns[i] == (
                    rows[a].fk_column.unwrap(),
                    rows[a].pk_column.unwrap(),
                )
                &&& #[trigger] edges[k].columns[j] == (
                    rows[b].fk_column.unwrap(),
                    rows[b].pk_column.unwrap(),
                )
            }
        }),
{
    let edges = table_edges(table, rows, scope);
    let groups = groups_of(rows, scope);
    let name = rows[a].fk_name;
    let to = rows[a].pk_table.unwrap();
    lemma_groups(rows, scope);
    lemma_edges_ascend(table, rows, scope);
    assert(row_is_of(rows[a], scope, name, to) && row_is_of(rows[b], scope, name, to));
    let x = lemma_row_has_pair(rows, scope, name, to, a);
    let y = lemma_row_has_pair(rows, scope, name, to, b);
    let g = choose|g: int|
        0 <= g < groups.len() && (#[trigger] groups[g]).name == name && groups[g].to == to;
    let pairs = groups[g].pairs;
    let keys = pairs.map_values(|p: Pair| pair_key(p));
    let order = stable_order(keys);
    sorting_orders_every_place(keys, keys.len());
    assert(order.contains(x) && order.contains(y));
    let i = choose|i: int| 0 <= i < order.len() && order[i] == x;
    let j = choose|j: int| 0 <= j < order.len() && order[j] == y;
    assert(keys[x].number < keys[y].number);
    if j < i {
        assert(place_before(keys, order[j], order[i]));
        keys_are_ordered(keys[x], keys[y], keys[x]);
    }
    let e = edge_of(table, groups[g]);
    assert(edges.contains(e));
    let k = choose|k: int| 0 <= k < edges.len() && edges[k] == e;
    assert(edges[k].columns[i] == (rows[a].fk_column.unwrap(), rows[a].pk_column.unwrap()));
    assert(edges[k].columns[j] == (rows[b].fk_column.unwrap(), rows[b].pk_column.unwrap()));
}

/// A box has the columns that were reported of its table, each as often as it was
/// and in the order of their ordinals; of those that have a name, each with its
/// type, whether it may be empty, and the marks of the keys it belongs to.
pub proof fn a_box_has_every_column(
    items: Seq<ColumnItemText>,
    table: Seq<char>,
    keys: TableKeys,
)
    ensures
        ({
            let shown = box_of(items, table, keys);
            let mine = columns_in_order(items, table);
            &&& shown.name == table
            &&& mine.to_multiset() == items.filter(
                |item: ColumnItemText| item.table == Some(table),
            ).to_multiset()
            &&& forall|i: int, j: int|
                0 <= i < j < mine.len() && (#[trigger] mine[j]).ordinal is Some ==> (
                #[trigger] mine[i]).ordinal is Some && mine[i].ordinal.unwrap()
                    <= mine[j].ordinal.unwrap() || mine[j].ordinal.unwrap() == i64::MAX
            &&& shown.columns == mine.filter(|item: ColumnItemText| item.name is Some).map_values(
                |item: ColumnItemText|
                    ErdColumnText {
                        name: item.name.unwrap(),
                        type_text: item.type_text,
                        nullable: item.nullable is None || item.nullable.unwrap(),
                        primary_key: maybe_texts(keys.primary@).contains(item.name),
                        foreign_key: exists|k: int|
                            0 <= k < keys.imported@.len() && (#[trigger] imported_texts(
                                keys.imported@,
                            )[k]).fk_column == item.name,
                    },
            )
        }),
{
    let key = |c: ColumnItemText| column_key(c);
    let reported = columns_reported(items, table);
    lemma_reported_is_filter(items, table);
    let mine = columns_in_order(items, table);
    sorting_keeps_and_orders(reported, key);
    assert(mine =~= in_order(reported, key));
    assert forall|i: int, j: int|
        0 <= i < j < mine.len() && (#[trigger] mine[j]).ordinal is Some implies (
    #[trigger] mine[i]).ordinal is Some && mine[i].ordinal.unwrap() <= mine[j].ordinal.unwrap()
        || mine[j].ordinal.unwrap() == i64::MAX by {
        assert(!key_less(key(in_order(reported, key)[j]), key(in_order(reported, key)[i])));
    }
    lemma_box_columns(mine, keys);
}

proof fn lemma_reported_is_filter(items: Seq<ColumnItemText>, table: Seq<char>)
    ensures
        columns_reported(items, table) == items.filter(
            |item: ColumnItemText| item.table == Some(table),
        ),
    decreases items.len(),
{
    reveal(Seq::filter);
    if items.len() > 0 {
        lemma_reported_is_filter(items.drop_last(), table);
    }
    assert(columns_reported(items, table) =~= items.filter(
        |item: ColumnItemText| item.table == Some(table),
    ));
}

proof fn lemma_box_columns(items: Seq<ColumnItemText>, keys: TableKeys)
    ensures
        box_columns(items, maybe_texts(keys.primary@), imported_texts(keys.imported@)) == items.filter(
            |item: ColumnItemText| item.name is Some,
        ).map_values(
            |item: ColumnItemText|
                ErdColumnText {
                    name: item.name.unwrap(),
                    type_text: item.type_text,
                    nullable: item.nullable is None || item.nullable.unwrap(),
                    primary_key: maybe_texts(keys.primary@).contains(item.name),
                    foreign_key: exists|k: int|
                        0 <= k < keys.imported@.len() && (#[trigger] imported_texts(
                            keys.imported@,
                        )[k]).fk_column == item.name,
                },
        ),
    decreases items.len(),
{
    reveal(Seq::filter);
    let f = |item: ColumnItemText|
        ErdColumnText {
            name: item.name.unwrap(),
            type_text: item.type_text,
            nullable: item.nullable is None || item.nullable.unwrap(),
            primary_key: maybe_texts(keys.primary@).contains(item.name),
            foreign_key: exists|k: int|
                0 <= k < keys.imported@.len() && (#[trigger] imported_texts(keys.imported@)[k]).fk_column
                    == item.name,
        };
    if items.len() > 0 {
        lemma_box_columns(items.drop_last(), keys);
        let item = items.last();
        if item.name is Some {
            let name = item.name.unwrap();
            assert(item.name == Some(name));
            let column = box_columns(
                items,
                maybe_texts(keys.primary@),
                imported_texts(keys.imported@),
            ).last();
            assert(column =~= f(item));
        }
    }
    assert(box_columns(items, maybe_texts(keys.primary@), imported_texts(keys.imported@)) =~= items.filter(
        |item: ColumnItemText| item.name is Some,
    ).map_values(f));
}

} // verus!
