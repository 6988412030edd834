//! A stable order over keys of a number and two texts.

use vstd::prelude::*;

use crate::ordered::{
    less_irreflexive, less_total, less_transitive, text_less, text_order, Order,
};
use crate::text::{as_text, maybe_text};

verus! {

/// What something is ordered by: a number, then two texts. An absent text comes
/// before every other.
#[verifier::ext_equal]
pub ghost struct KeyText {
    pub number: int,
    pub first: Option<Seq<char>>,
    pub second: Option<Seq<char>>,
}

/// What something is ordered by.
#[derive(Debug)]
pub struct SortKey {
    pub number: i64,
    pub first: Option<String>,
    pub second: Option<String>,
}

impl View for SortKey {
    type V = KeyText;

    open spec fn view(&self) -> KeyText {
        KeyText {
            number: self.number as int,
            first: maybe_text(self.first),
            second: maybe_text(self.second),
        }
    }
}

/// The keys of a list.
pub open spec fn key_texts(keys: Seq<SortKey>) -> Seq<KeyText> {
    keys.map_values(|k: SortKey| k@)
}

/// Whether an optional text comes before another.
pub open spec fn part_less(a: Option<Seq<char>>, b: Option<Seq<char>>) -> bool {
    match (a, b) {
        (None, Some(_)) => true,
        (Some(x), Some(y)) => text_less(x, y),
        _ => false,
    }
}

/// Whether a key comes before another.
pub open spec fn key_less(a: KeyText, b: KeyText) -> bool {
    ||| a.number < b.number
    ||| a.number == b.number && part_less(a.first, b.first)
    ||| a.number == b.number && a.first == b.first && part_less(a.second, b.second)
}

/// How optional texts stand to each other.
proof fn lemma_part_order(a: Option<Seq<char>>, b: Option<Seq<char>>, c: Option<Seq<char>>)
    ensures
        !part_less(a, a),
        part_less(a, b) && part_less(b, c) ==> part_less(a, c),
        part_less(a, b) || part_less(b, a) || a == b,
{
    if a is Some {
        less_irreflexive(a.unwrap());
    }
    if a is Some && b is Some {
        less_total(a.unwrap(), b.unwrap());
        if c is Some && part_less(a, b) && part_less(b, c) {
            less_transitive(a.unwrap(), b.unwrap(), c.unwrap());
        }
    }
}

/// Keys are ordered: none before itself, and what comes before what comes before
/// `c` comes before `c`.
pub proof fn keys_are_ordered(a: KeyText, b: KeyText, c: KeyText)
    ensures
        !key_less(a, a),
        key_less(a, b) && key_less(b, c) ==> key_less(a, c),
        key_less(a, b) || key_less(b, a) || a == b,
{
    lemma_part_order(a.first, b.first, c.first);
    lemma_part_order(a.second, b.second, c.second);
    lemma_part_order(b.first, c.first, a.first);
    lemma_part_order(a.first, a.first, a.first);
}

/// How optional texts stand to each other.
fn part_order(a: &Option<String>, b: &Option<String>) -> (r: Order)
    ensures
        r is Before <==> part_less(maybe_text(*a), maybe_text(*b)),
        r is Same <==> maybe_text(*a) == maybe_text(*b),
{
    proof {
        lemma_part_order(maybe_text(*a), maybe_text(*b), maybe_text(*a));
    }
    match (as_text(a), as_text(b)) {
        (None, None) => Order::Same,
        (None, Some(_)) => Order::Before,
        (Some(_), None) => Order::After,
        (Some(x), Some(y)) => text_order(x, y),
    }
}

/// Whether a key comes before another.
pub fn comes_before(a: &SortKey, b: &SortKey) -> (r: bool)
    ensures
        r == key_less(a@, b@),
{
    if a.number < b.number {
        return true;
    }
    if b.number < a.number {
        return false;
    }
    proof {
        lemma_part_order(a@.first, b@.first, a@.first);
    }
    match part_order(&a.first, &b.first) {
        Order::Before => true,
        Order::After => false,
        Order::Same => matches!(part_order(&a.second, &b.second), Order::Before),
    }
}

/// An order with `i` put in behind everything it does not come before.
pub open spec fn put_in(keys: Seq<KeyText>, order: Seq<int>, i: int) -> Seq<int>
    decreases order.len(),
{
    if order.len() == 0 || !key_less(keys[i], keys[order.last()]) {
        order.push(i)
    } else {
        put_in(keys, order.drop_last(), i).push(order.last())
    }
}

/// The first `n` places in order of their keys, equal keys by place.
pub open spec fn sorted_places(keys: Seq<KeyText>, n: nat) -> Seq<int>
    decreases n,
{
    if n == 0 {
        Seq::empty()
    } else {
        put_in(keys, sorted_places(keys, (n - 1) as nat), n - 1)
    }
}

/// The places in order of their keys, equal keys by place.
pub open spec fn stable_order(keys: Seq<KeyText>) -> Seq<int> {
    sorted_places(keys, keys.len())
}

/// Whether place `a` comes before place `b`: by its key, and by place where
/// neither key comes first.
pub open spec fn place_before(keys: Seq<KeyText>, a: int, b: int) -> bool {
    key_less(keys[a], keys[b]) || (!key_less(keys[b], keys[a]) && a < b)
}

/// What putting a later place into an order does.
proof fn lemma_put_in(keys: Seq<KeyText>, order: Seq<int>, i: int)
    requires
        forall|a: int, b: int|
            0 <= a < b < order.len() ==> place_before(keys, #[trigger] order[a], #[trigger] order[b]),
        forall|a: int| 0 <= a < order.len() ==> 0 <= #[trigger] order[a] < i,
    ensures
        ({
            let r = put_in(keys, order, i);
            &&& r.len() == order.len() + 1
            &&& forall|a: int, b: int|
                0 <= a < b < r.len() ==> place_before(keys, #[trigger] r[a], #[trigger] r[b])
            &&& forall|k: int| #[trigger] r.contains(k) <==> order.contains(k) || k == i
        }),
    decreases order.len(),
{
    let r = put_in(keys, order, i);
    if order.len() == 0 {
        assert(r[0] == i);
    } else if !key_less(keys[i], keys[order.last()]) {
        assert forall|a: int, b: int| 0 <= a < b < r.len() implies place_before(
            keys,
            #[trigger] r[a],
            #[trigger] r[b],
        ) by {
            if b == order.len() {
                keys_are_ordered(keys[i], keys[order[a]], keys[order.last()]);
                keys_are_ordered(keys[order[a]], keys[order.last()], keys[i]);
                if a < order.len() - 1 {
                    assert(place_before(keys, order[a], order[order.len() - 1]));
                }
            }
        }
        assert forall|k: int| #[trigger] r.contains(k) <==> order.contains(k) || k == i by {
            if order.contains(k) {
                let a = choose|a: int| 0 <= a < order.len() && order[a] == k;
                assert(r[a] == k);
            }
            assert(r[order.len() as int] == i);
        }
    } else {
        let shorter = order.drop_last();
        let last = order.last();
        lemma_put_in(keys, shorter, i);
        let inner = put_in(keys, shorter, i);
        assert(r == inner.push(last));
        assert forall|a: int, b: int| 0 <= a < b < r.len() implies place_before(
            keys,
            #[trigger] r[a],
            #[trigger] r[b],
        ) by {
            if b == inner.len() {
                assert(inner.contains(inner[a]));
                if inner[a] != i {
                    let c = choose|c: int| 0 <= c < shorter.len() && shorter[c] == inner[a];
                    assert(place_before(keys, order[c], order[order.len() - 1]));
                }
            } else {
                assert(place_before(keys, inner[a], inner[b]));
            }
        }
        assert forall|k: int| #[trigger] r.contains(k) <==> order.contains(k) || k == i by {
            if r.contains(k) {
                let a = choose|a: int| 0 <= a < r.len() && r[a] == k;
                if a < inner.len() {
                    assert(inner.contains(k));
                    if shorter.contains(k) {
                        let c = choose|c: int| 0 <= c < shorter.len() && shorter[c] == k;
                        assert(order[c] == k);
                    }
                } else {
                    assert(order[order.len() - 1] == k);
                }
            }
            if order.contains(k) {
                let c = choose|c: int| 0 <= c < order.len() && order[c] == k;
                if c < shorter.len() {
                    assert(shorter[c] == k);
                    assert(shorter.contains(k));
                    assert(inner.contains(k));
                    let a = choose|a: int| 0 <= a < inner.len() && inner[a] == k;
                    assert(r[a] == k);
                } else {
                    assert(r[inner.len() as int] == k);
                }
            }
            if k == i {
                assert(inner.contains(i));
                let a = choose|a: int| 0 <= a < inner.len() && inner[a] == k;
                assert(r[a] == k);
            }
        }
    }
}

/// Sorting the first `n` places orders exactly those.
pub proof fn sorting_orders_every_place(keys: Seq<KeyText>, n: nat)
    requires
        n <= keys.len(),
    ensures
        ({
            let r = sorted_places(keys, n);
            &&& r.len() == n
            &&& forall|a: int, b: int|
                0 <= a < b < r.len() ==> place_before(keys, #[trigger] r[a], #[trigger] r[b])
            &&& forall|k: int| #[trigger] r.contains(k) <==> 0 <= k < n
            &&& forall|a: int| 0 <= a < r.len() ==> 0 <= #[trigger] r[a] < n
        }),
    decreases n,
{
    let r = sorted_places(keys, n);
    if n > 0 {
        let before = sorted_places(keys, (n - 1) as nat);
        sorting_orders_every_place(keys, (n - 1) as nat);
        lemma_put_in(keys, before, n - 1);
        assert forall|k: int| #[trigger] r.contains(k) <==> 0 <= k < n by {
            assert(before.contains(k) <==> 0 <= k < n - 1);
        }
    }
    assert forall|a: int| 0 <= a < r.len() implies 0 <= #[trigger] r[a] < n by {
        assert(r.contains(r[a]));
    }
}

/// The places as mathematical integers.
pub open spec fn places(list: Seq<usize>) -> Seq<int> {
    list.map_values(|i: usize| i as int)
}

/// The places in order of their keys, equal keys by place.
pub fn sort_places(keys: &Vec<SortKey>) -> (r: Vec<usize>)
    ensures
        places(r@) == stable_order(key_texts(keys@)),
        r@.len() == keys@.len(),
        forall|a: int| 0 <= a < r@.len() ==> #[trigger] r@[a] < keys@.len(),
{
    let ghost texts = key_texts(keys@);
    let mut order: Vec<usize> = Vec::new();
    let mut i: usize = 0;
    assert(places(order@) =~= Seq::<int>::empty());
    while i < keys.len()
        invariant
            i <= keys@.len(),
            texts == key_texts(keys@),
            places(order@) == sorted_places(texts, i as nat),
            order@.len() == i,
            forall|a: int| 0 <= a < order@.len() ==> #[trigger] order@[a] < keys@.len(),
        decreases keys.len() - i,
    {
        let ghost before = order@;
        let mut at: usize = order.len();
        proof {
            let all = places(before);
            let whole = put_in(texts, all, i as int);
            assert(all.take(at as int) =~= all);
            assert(whole + all.skip(at as int) =~= whole);
        }
        while at > 0 && comes_before(&keys[i], &keys[order[at - 1]])
            invariant
                at <= order@.len(),
                i < keys@.len(),
                order@ == before,
                texts == key_texts(keys@),
                forall|a: int| 0 <= a < order@.len() ==> #[trigger] order@[a] < keys@.len(),
                put_in(texts, places(before), i as int) == put_in(
                    texts,
                    places(before).take(at as int),
                    i as int,
                ) + places(before).skip(at as int),
            decreases at,
        {
            let ghost part = places(before).take(at as int);
            assert(part.drop_last() =~= places(before).take(at - 1));
            assert(part.last() == before[at - 1] as int);
            assert(keys@[before[at - 1] as int]@ == texts[part.last()]);
            assert(put_in(texts, places(before).take(at - 1), i as int).push(part.last())
                + places(before).skip(at as int) =~= put_in(
                texts,
                places(before).take(at - 1),
                i as int,
            ) + places(before).skip(at - 1));
            at = at - 1;
        }
        proof {
            let part = places(before).take(at as int);
            if at > 0 {
                assert(part.last() == before[at - 1] as int);
                assert(keys@[before[at - 1] as int]@ == texts[part.last()]);
            }
            assert(put_in(texts, part, i as int) == part.push(i as int));
        }
        order.insert(at, i);
        assert(places(order@) =~= places(before).take(at as int).push(i as int) + places(before).skip(
            at as int,
        ));
        i = i + 1;
    }
    order
}

/// The items of a list in order of their keys, equal keys by place.
pub open spec fn in_order<T>(items: Seq<T>, key: spec_fn(T) -> KeyText) -> Seq<T> {
    stable_order(items.map_values(key)).map_values(|i: int| items[i])
}

/// Putting a place into an order adds its item and nothing else.
proof fn lemma_put_adds<T>(keys: Seq<KeyText>, items: Seq<T>, order: Seq<int>, i: int)
    ensures
        put_in(keys, order, i).map_values(|k: int| items[k]).to_multiset() == order.map_values(
            |k: int| items[k],
        ).to_multiset().insert(items[i]),
    decreases order.len(),
{
    let f = |k: int| items[k];
    if order.len() == 0 || !key_less(keys[i], keys[order.last()]) {
        let listed = order.map_values(f);
        assert(order.push(i).map_values(f) =~= listed.push(items[i]));
        listed.to_multiset_ensures();
    } else {
        let shorter = order.drop_last();
        lemma_put_adds(keys, items, shorter, i);
        let inner = put_in(keys, shorter, i).map_values(f);
        let few = shorter.map_values(f);
        assert(put_in(keys, order, i).map_values(f) =~= inner.push(items[order.last()]));
        assert(order.map_values(f) =~= few.push(items[order.last()]));
        inner.to_multiset_ensures();
        few.to_multiset_ensures();
        assert(inner.to_multiset().insert(items[order.last()]) =~= few.to_multiset().insert(
            items[order.last()],
        ).insert(items[i]));
    }
}

/// Sorting the first `n` items keeps them all.
proof fn lemma_sorting_keeps<T>(keys: Seq<KeyText>, items: Seq<T>, n: nat)
    requires
        n <= items.len(),
    ensures
        sorted_places(keys, n).map_values(|k: int| items[k]).to_multiset() == items.take(
            n as int,
        ).to_multiset(),
    decreases n,
{
    let f = |k: int| items[k];
    if n == 0 {
        assert(sorted_places(keys, n).map_values(f) =~= items.take(0));
    } else {
        lemma_sorting_keeps(keys, items, (n - 1) as nat);
        lemma_put_adds(keys, items, sorted_places(keys, (n - 1) as nat), n - 1);
        assert(items.take(n as int) =~= items.take(n - 1).push(items[n - 1]));
        items.take(n - 1).to_multiset_ensures();
    }
}

/// Whether no item stands behind one whose key comes later.
spec fn ascends_by<T>(items: Seq<T>, key: spec_fn(T) -> KeyText) -> bool {
    forall|i: int, j: int|
        0 <= i < j < items.len() ==> !key_less(key(#[trigger] items[j]), key(#[trigger] items[i]))
}

/// Whether items with one key are one.
pub open spec fn told_apart<T>(items: Seq<T>, key: spec_fn(T) -> KeyText) -> bool {
    forall|i: int, j: int|
        0 <= i < items.len() && 0 <= j < items.len() && key(#[trigger] items[i]) == key(
            #[trigger] items[j],
        ) ==> items[i] == items[j]
}

/// Sorting keeps every item and puts them in order.
proof fn lemma_in_order<T>(items: Seq<T>, key: spec_fn(T) -> KeyText)
    ensures
        in_order(items, key).to_multiset() == items.to_multiset(),
        ascends_by(in_order(items, key), key),
{
    let keys = items.map_values(key);
    let order = stable_order(keys);
    let sorted = in_order(items, key);
    lemma_sorting_keeps(keys, items, items.len());
    assert(items.take(items.len() as int) =~= items);
    sorting_orders_every_place(keys, keys.len());
    assert forall|i: int, j: int| 0 <= i < j < sorted.len() implies !key_less(
        key(#[trigger] sorted[j]),
        key(#[trigger] sorted[i]),
    ) by {
        let x = order[i];
        let y = order[j];
        assert(place_before(keys, x, y));
        keys_are_ordered(keys[x], keys[y], keys[x]);
    }
}

/// Two lists of the same items, both in order, are the same where the key tells
/// the items apart.
proof fn lemma_one_order<T>(a: Seq<T>, b: Seq<T>, key: spec_fn(T) -> KeyText)
    requires
        a.to_multiset() == b.to_multiset(),
        ascends_by(a, key),
        ascends_by(b, key),
        told_apart(a, key),
    ensures
        a == b,
    decreases a.len(),
{
    a.to_multiset_ensures();
    b.to_multiset_ensures();
    assert(a.len() == b.len());
    if a.len() == 0 {
        assert(a =~= b);
    } else {
        let top = a.last();
        let other = b.last();
        assert(b[b.len() - 1] == other && a[a.len() - 1] == top);
        assert(b.contains(other) && a.contains(top));
        assert(a.to_multiset().count(other) > 0 && b.to_multiset().count(top) > 0);
        assert(a.contains(other) && b.contains(top));
        let i = choose|i: int| 0 <= i < a.len() && a[i] == other;
        let j = choose|j: int| 0 <= j < b.len() && b[j] == top;
        keys_are_ordered(key(top), key(other), key(top));
        if i < a.len() - 1 {
            assert(!key_less(key(a[a.len() - 1]), key(a[i])));
        }
        if j < b.len() - 1 {
            assert(!key_less(key(b[b.len() - 1]), key(b[j])));
        }
        assert(key(a[i]) == key(a[a.len() - 1]));
        assert(top == other);
        let fewer_a = a.drop_last();
        let fewer_b = b.drop_last();
        assert(a =~= fewer_a.push(top));
        assert(b =~= fewer_b.push(top));
        fewer_a.to_multiset_ensures();
        fewer_b.to_multiset_ensures();
        assert(fewer_a.to_multiset() =~= a.to_multiset().remove(top));
        assert(fewer_b.to_multiset() =~= b.to_multiset().remove(top));
        assert(ascends_by(fewer_a, key)) by {
            assert forall|x: int, y: int| 0 <= x < y < fewer_a.len() implies !key_less(
                key(#[trigger] fewer_a[y]),
                key(#[trigger] fewer_a[x]),
            ) by {
                assert(!key_less(key(a[y]), key(a[x])));
            }
        }
        assert(ascends_by(fewer_b, key)) by {
            assert forall|x: int, y: int| 0 <= x < y < fewer_b.len() implies !key_less(
                key(#[trigger] fewer_b[y]),
                key(#[trigger] fewer_b[x]),
            ) by {
                assert(!key_less(key(b[y]), key(b[x])));
            }
        }
        assert(told_apart(fewer_a, key)) by {
            assert forall|x: int, y: int|
                0 <= x < fewer_a.len() && 0 <= y < fewer_a.len() && key(#[trigger] fewer_a[x])
                    == key(#[trigger] fewer_a[y]) implies fewer_a[x] == fewer_a[y] by {
                assert(key(a[x]) == key(a[y]));
            }
        }
        lemma_one_order(fewer_a, fewer_b, key);
    }
}

/// The same items come out in the same order whatever order they went in, where
/// the key tells them apart.
pub proof fn sorting_forgets_the_order<T>(a: Seq<T>, b: Seq<T>, key: spec_fn(T) -> KeyText)
    requires
        a.to_multiset() == b.to_multiset(),
        told_apart(a, key),
    ensures
        in_order(a, key) == in_order(b, key),
{
    lemma_in_order(a, key);
    lemma_in_order(b, key);
    let sorted = in_order(a, key);
    a.to_multiset_ensures();
    sorted.to_multiset_ensures();
    assert forall|i: int, j: int|
        0 <= i < sorted.len() && 0 <= j < sorted.len() && key(#[trigger] sorted[i]) == key(
            #[trigger] sorted[j],
        ) implies sorted[i] == sorted[j] by {
        assert(sorted.contains(sorted[i]) && sorted.contains(sorted[j]));
        assert(a.to_multiset().count(sorted[i]) > 0 && a.to_multiset().count(sorted[j]) > 0);
        assert(a.contains(sorted[i]) && a.contains(sorted[j]));
        let k = choose|k: int| 0 <= k < a.len() && a[k] == sorted[i];
        let l = choose|l: int| 0 <= l < a.len() && a[l] == sorted[j];
        assert(key(a[k]) == key(a[l]));
    }
    lemma_one_order(sorted, in_order(b, key), key);
}

/// Keys are ordered by their number, then by their first text, then by their
/// second; a text that is absent comes first.
pub proof fn a_key_is_ordered_by_its_number_first(a: KeyText, b: KeyText)
    ensures
        a.number < b.number ==> key_less(a, b),
        a.number == b.number && a.first is None && b.first is Some ==> key_less(a, b),
        a.number == b.number && a.first is Some && b.first is Some && text_less(
            a.first.unwrap(),
            b.first.unwrap(),
        ) ==> key_less(a, b),
        a.number == b.number && a.first == b.first && a.second is None && b.second is Some ==> key_less(
            a,
            b,
        ),
        a.number == b.number && a.first == b.first && a.second is Some && b.second is Some
            && text_less(a.second.unwrap(), b.second.unwrap()) ==> key_less(a, b),
{
}

/// Sorting keeps every item, as often as it was there, and no item stands behind
/// one whose key comes later.
pub proof fn sorting_keeps_and_orders<T>(items: Seq<T>, key: spec_fn(T) -> KeyText)
    ensures
        in_order(items, key).to_multiset() == items.to_multiset(),
        forall|i: int, j: int|
            0 <= i < j < in_order(items, key).len() ==> !key_less(
                key(#[trigger] in_order(items, key)[j]),
                key(#[trigger] in_order(items, key)[i]),
            ),
{
    lemma_in_order(items, key);
}

/// A key reads as its number and its texts.
pub proof fn a_key_reads_as_it_is(key: SortKey)
    ensures
        key@.number == key.number,
        key@.first == maybe_text(key.first),
        key@.second == maybe_text(key.second),
{
}

} // verus!
