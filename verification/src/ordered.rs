//! Text in dictionary order, and a map from texts that keeps its keys in it.

use vstd::prelude::*;

use crate::text::chars_of;

verus! {

/// Whether `a` and `b` agree up to character `k`, and `a` is the smaller there.
pub open spec fn less_at(a: Seq<char>, b: Seq<char>, k: int) -> bool {
    &&& 0 <= k <= a.len()
    &&& k < b.len()
    &&& forall|i: int| 0 <= i < k ==> a[i] == b[i]
    &&& k == a.len() || a[k] < b[k]
}

/// Whether `a` comes before `b` in dictionary order, character by character.
pub open spec fn text_less(a: Seq<char>, b: Seq<char>) -> bool {
    exists|k: int| less_at(a, b, k)
}

/// No text comes before itself.
pub proof fn less_irreflexive(a: Seq<char>)
    ensures
        !text_less(a, a),
{
}

/// What comes before what comes before `c` comes before `c`.
pub proof fn less_transitive(a: Seq<char>, b: Seq<char>, c: Seq<char>)
    requires
        text_less(a, b),
        text_less(b, c),
    ensures
        text_less(a, c),
{
    let j = choose|k: int| less_at(a, b, k);
    let k = choose|k: int| less_at(b, c, k);
    if j <= k {
        assert(less_at(a, c, j));
    } else {
        assert(less_at(a, c, k));
    }
}

/// Of two texts that agree up to `k`, one comes first unless they are the same.
proof fn lemma_total_from(a: Seq<char>, b: Seq<char>, k: int)
    requires
        0 <= k <= a.len(),
        k <= b.len(),
        forall|i: int| 0 <= i < k ==> a[i] == b[i],
    ensures
        text_less(a, b) || text_less(b, a) || a == b,
    decreases a.len() - k,
{
    if k == a.len() && k == b.len() {
        assert(a =~= b);
    } else if k == a.len() {
        assert(less_at(a, b, k));
    } else if k == b.len() {
        assert(less_at(b, a, k));
    } else if a[k] < b[k] {
        assert(less_at(a, b, k));
    } else if b[k] < a[k] {
        assert(less_at(b, a, k));
    } else {
        lemma_total_from(a, b, k + 1);
    }
}

/// Of two different texts, one comes first.
pub proof fn less_total(a: Seq<char>, b: Seq<char>)
    ensures
        text_less(a, b) || text_less(b, a) || a == b,
{
    lemma_total_from(a, b, 0);
}

/// How two texts stand to each other.
#[derive(Clone, Copy, Debug, PartialEq, Eq, Structural)]
pub enum Order {
    Before,
    Same,
    After,
}

/// How `a` stands to `b` in dictionary order.
pub open spec fn order_of(a: Seq<char>, b: Seq<char>) -> Order {
    if a == b {
        Order::Same
    } else if text_less(a, b) {
        Order::Before
    } else {
        Order::After
    }
}

/// How `a` stands to `b` in dictionary order.
pub fn text_order(a: &str, b: &str) -> (r: Order)
    ensures
        r == order_of(a@, b@),
        r is After ==> text_less(b@, a@),
{
    let left = chars_of(a);
    let right = chars_of(b);
    proof {
        less_total(a@, b@);
    }
    let mut i: usize = 0;
    while i < left.len() && i < right.len()
        invariant
            i <= left.len(),
            i <= right.len(),
            left@ == a@,
            right@ == b@,
            forall|k: int| 0 <= k < i ==> left@[k] == right@[k],
            text_less(a@, b@) || text_less(b@, a@) || a@ == b@,
        decreases left.len() - i,
    {
        if left[i] < right[i] {
            assert(less_at(a@, b@, i as int));
            return Order::Before;
        }
        if right[i] < left[i] {
            assert(less_at(b@, a@, i as int));
            proof {
                if text_less(a@, b@) {
                    less_transitive(a@, b@, a@);
                }
            }
            return Order::After;
        }
        i = i + 1;
    }
    if i < right.len() {
        assert(less_at(a@, b@, i as int));
        Order::Before
    } else if i < left.len() {
        assert(less_at(b@, a@, i as int));
        proof {
            if text_less(a@, b@) {
                less_transitive(a@, b@, a@);
            }
        }
        Order::After
    } else {
        assert(a@ =~= b@);
        Order::Same
    }
}

/// A map from texts, its keys in dictionary order and each of them once.
pub struct TextMap<V> {
    entries: Vec<(String, V)>,
}

/// Whether the keys of `entries` are in dictionary order, each of them once.
pub open spec fn keys_ascend<V>(entries: Seq<(String, V)>) -> bool {
    forall|i: int, j: int|
        0 <= i < j < entries.len() ==> text_less(#[trigger] entries[i].0@, #[trigger] entries[j].0@)
}

/// The map that a list of entries spells.
pub open spec fn entry_map<V>(entries: Seq<(String, V)>) -> Map<Seq<char>, V> {
    Map::new(
        |key: Seq<char>| exists|i: int| 0 <= i < entries.len() && (#[trigger] entries[i]).0@ == key,
        |key: Seq<char>| entries[choose|i: int| 0 <= i < entries.len() && (#[trigger] entries[i]).0@ == key].1,
    )
}

/// In a list whose keys ascend, the map holds each entry's own value.
proof fn lemma_entry<V>(entries: Seq<(String, V)>, i: int)
    requires
        keys_ascend(entries),
        0 <= i < entries.len(),
    ensures
        entry_map(entries).dom().contains(entries[i].0@),
        entry_map(entries)[entries[i].0@] == entries[i].1,
{
    let key = entries[i].0@;
    let j = choose|j: int| 0 <= j < entries.len() && (#[trigger] entries[j]).0@ == key;
    assert(0 <= j < entries.len() && entries[j].0@ == key);
    less_irreflexive(key);
    if i < j {
        assert(text_less(entries[i].0@, entries[j].0@));
    } else if j < i {
        assert(text_less(entries[j].0@, entries[i].0@));
    }
}

impl<V> View for TextMap<V> {
    type V = Map<Seq<char>, V>;

    closed spec fn view(&self) -> Map<Seq<char>, V> {
        entry_map(self.entries@)
    }
}

impl<V> TextMap<V> {
    #[verifier::type_invariant]
    spec fn wf(self) -> bool {
        keys_ascend(self.entries@)
    }

    /// The entries in order.
    pub closed spec fn listing(self) -> Seq<(String, V)> {
        self.entries@
    }

    /// An empty map.
    pub fn new() -> (r: Self)
        ensures
            r@ == Map::<Seq<char>, V>::empty(),
            r.listing().len() == 0,
    {
        let r = TextMap { entries: Vec::new() };
        assert(r@ =~= Map::<Seq<char>, V>::empty());
        r
    }

    /// The entries in order: what the map holds, by ascending key.
    pub fn entries(&self) -> (r: &Vec<(String, V)>)
        ensures
            r@ == self.listing(),
            keys_ascend(r@),
            self@ == entry_map(r@),
    {
        proof {
            use_type_invariant(self);
        }
        &self.entries
    }

    /// Where `key` stands, or where it belongs.
    fn position(&self, key: &str) -> (r: (bool, usize))
        ensures
            r.1 <= self.entries@.len(),
            r.0 ==> r.1 < self.entries@.len() && self.entries@[r.1 as int].0@ == key@,
            !r.0 ==> !self@.dom().contains(key@),
            !r.0 ==> forall|i: int|
                0 <= i < r.1 ==> text_less(#[trigger] self.entries@[i].0@, key@),
            !r.0 ==> forall|i: int|
                r.1 <= i < self.entries@.len() ==> text_less(key@, #[trigger] self.entries@[i].0@),
    {
        proof {
            use_type_invariant(self);
        }
        let mut at: usize = 0;
        while at < self.entries.len()
            invariant
                at <= self.entries@.len(),
                keys_ascend(self.entries@),
                forall|i: int| 0 <= i < at ==> text_less(#[trigger] self.entries@[i].0@, key@),
            decreases self.entries.len() - at,
        {
            match text_order(self.entries[at].0.as_str(), key) {
                Order::Same => {
                    return (true, at);
                },
                Order::Before => {
                    at = at + 1;
                },
                Order::After => {
                    assert forall|i: int| at <= i < self.entries@.len() implies text_less(
                        key@,
                        #[trigger] self.entries@[i].0@,
                    ) by {
                        if i > at {
                            less_transitive(key@, self.entries@[at as int].0@, self.entries@[i].0@);
                        }
                    }
                    assert(!self@.dom().contains(key@)) by {
                        less_irreflexive(key@);
                    }
                    return (false, at);
                },
            }
        }
        assert(!self@.dom().contains(key@)) by {
            less_irreflexive(key@);
        }
        (false, at)
    }

    /// The value `key` stands for, if it is in the map.
    pub fn get(&self, key: &str) -> (r: Option<&V>)
        ensures
            match r {
                Some(value) => self@.dom().contains(key@) && *value == self@[key@],
                None => !self@.dom().contains(key@),
            },
    {
        let (found, at) = self.position(key);
        if found {
            proof {
                use_type_invariant(self);
                lemma_entry(self.entries@, at as int);
            }
            Some(&self.entries[at].1)
        } else {
            None
        }
    }

    /// Puts `value` under `key`, in place of what stood there.
    pub fn insert(&mut self, key: String, value: V)
        ensures
            final(self)@ == old(self)@.insert(key@, value),
    {
        proof {
            use_type_invariant(&*self);
        }
        let (found, at) = self.position(key.as_str());
        let mut entries: Vec<(String, V)> = Vec::new();
        std::mem::swap(&mut entries, &mut self.entries);
        let ghost before = entries@;
        if found {
            entries.remove(at);
            entries.insert(at, (key, value));
            proof {
                assert(entries@ =~= before.update(at as int, (key, value)));
                assert forall|i: int, j: int| 0 <= i < j < entries@.len() implies text_less(
                    #[trigger] entries@[i].0@,
                    #[trigger] entries@[j].0@,
                ) by {
                    assert(text_less(before[i].0@, before[j].0@));
                }
            }
        } else {
            entries.insert(at, (key, value));
            proof {
                assert forall|i: int, j: int| 0 <= i < j < entries@.len() implies text_less(
                    #[trigger] entries@[i].0@,
                    #[trigger] entries@[j].0@,
                ) by {
                    let ii = if i < at { i } else { i - 1 };
                    let jj = if j < at { j } else { j - 1 };
                    if i != at && j != at {
                        assert(text_less(before[ii].0@, before[jj].0@));
                    } else if i == at {
                        assert(entries@[j] == before[j - 1]);
                    } else {
                        assert(entries@[i] == before[i]);
                    }
                }
            }
        }
        proof {
            let after = entries@;
            let wanted = entry_map(before).insert(key@, value);
            assert(after[at as int] == (key, value));
            assert forall|k: Seq<char>| #[trigger] entry_map(after).dom().contains(k) == wanted.dom().contains(
                k,
            ) by {
                if entry_map(after).dom().contains(k) {
                    let i = choose|i: int| 0 <= i < after.len() && (#[trigger] after[i]).0@ == k;
                    if i != at {
                        let ii = if i < at || found { i } else { i - 1 };
                        assert(before[ii] == after[i]);
                    }
                }
                if entry_map(before).dom().contains(k) {
                    let i = choose|i: int| 0 <= i < before.len() && (#[trigger] before[i]).0@ == k;
                    let ii = if i < at || found { i } else { i + 1 };
                    if k != key@ {
                        assert(after[ii] == before[i]);
                    }
                }
            }
            assert forall|k: Seq<char>| #[trigger] entry_map(after).dom().contains(k) implies entry_map(after)[k]
                == wanted[k] by {
                let i = choose|i: int| 0 <= i < after.len() && (#[trigger] after[i]).0@ == k;
                lemma_entry(after, i);
                if i == at {
                    assert(k == key@);
                } else {
                    let ii = if i < at || found { i } else { i - 1 };
                    assert(before[ii] == after[i]);
                    lemma_entry(before, ii);
                    lemma_entry(after, at as int);
                    if i < at {
                        assert(text_less(after[i].0@, after[at as int].0@));
                    } else {
                        assert(text_less(after[at as int].0@, after[i].0@));
                    }
                    less_irreflexive(k);
                }
            }
            assert(entry_map(after) =~= wanted);
        }
        self.entries = entries;
    }
}

/// A map of one more entry is the map before with that entry put in.
pub proof fn entry_map_grows<V>(entries: Seq<(String, V)>, i: int)
    requires
        keys_ascend(entries),
        0 <= i < entries.len(),
    ensures
        entry_map(entries.take(i + 1)) == entry_map(entries.take(i)).insert(
            entries[i].0@,
            entries[i].1,
        ),
{
    let before = entries.take(i);
    let next = entries.take(i + 1);
    let key = entries[i].0@;
    let value = entries[i].1;
    assert(next =~= before.push(entries[i]));
    assert(keys_ascend(next)) by {
        assert forall|a: int, b: int| 0 <= a < b < next.len() implies text_less(
            #[trigger] next[a].0@,
            #[trigger] next[b].0@,
        ) by {
            assert(text_less(entries[a].0@, entries[b].0@));
        }
    }
    assert(keys_ascend(before)) by {
        assert forall|a: int, b: int| 0 <= a < b < before.len() implies text_less(
            #[trigger] before[a].0@,
            #[trigger] before[b].0@,
        ) by {
            assert(text_less(entries[a].0@, entries[b].0@));
        }
    }
    let wanted = entry_map(before).insert(key, value);
    assert forall|k: Seq<char>| #[trigger] entry_map(next).dom().contains(k) == wanted.dom().contains(k) by {
        if entry_map(next).dom().contains(k) {
            let j = choose|j: int| 0 <= j < next.len() && (#[trigger] next[j]).0@ == k;
            if j < i {
                assert(before[j].0@ == k);
            }
        }
        if entry_map(before).dom().contains(k) {
            let j = choose|j: int| 0 <= j < before.len() && (#[trigger] before[j]).0@ == k;
            assert(next[j].0@ == k);
        }
        assert(next[i].0@ == key);
    }
    assert forall|k: Seq<char>| #[trigger] entry_map(next).dom().contains(k) implies entry_map(next)[k]
        == wanted[k] by {
        let j = choose|j: int| 0 <= j < next.len() && (#[trigger] next[j]).0@ == k;
        lemma_entry(next, j);
        less_irreflexive(k);
        if j < i {
            lemma_entry(before, j);
            assert(before[j] == next[j]);
            assert(text_less(entries[j].0@, entries[i].0@));
        }
    }
    assert(entry_map(next) =~= wanted);
}

/// A copy of a map of texts.
pub fn copy_text_map(map: &TextMap<String>) -> (r: TextMap<String>)
    ensures
        r@ == map@,
{
    let entries = map.entries();
    let mut out: TextMap<String> = TextMap::new();
    let mut i: usize = 0;
    assert(out@ =~= entry_map(entries@.take(0)));
    while i < entries.len()
        invariant
            i <= entries@.len(),
            keys_ascend(entries@),
            out@ == entry_map(entries@.take(i as int)),
        decreases entries.len() - i,
    {
        proof {
            entry_map_grows(entries@, i as int);
        }
        out.insert(entries[i].0.clone(), entries[i].1.clone());
        i = i + 1;
    }
    assert(entries@.take(entries@.len() as int) =~= entries@);
    out
}

/// The contents of a map of texts.
pub open spec fn map_texts(map: Map<Seq<char>, String>) -> Map<Seq<char>, Seq<char>> {
    map.map_values(|s: String| s@)
}

/// A key and its value, both as texts.
pub type Pair = (Seq<char>, Seq<char>);

/// The contents of a list of pairs.
pub open spec fn pair_texts(list: Seq<(String, String)>) -> Seq<Pair> {
    list.map_values(|p: (String, String)| (p.0@, p.1@))
}

/// Whether the keys of a list are in dictionary order, each of them once.
pub open spec fn ascends(list: Seq<Pair>) -> bool {
    forall|i: int, j: int|
        0 <= i < j < list.len() ==> text_less(#[trigger] list[i].0, #[trigger] list[j].0)
}

/// Whether a list holds a key.
pub open spec fn has_key(list: Seq<Pair>, key: Seq<char>) -> bool {
    exists|i: int| 0 <= i < list.len() && (#[trigger] list[i]).0 == key
}

/// Whether a list spells a map.
pub open spec fn spells_map(list: Seq<Pair>, map: Map<Seq<char>, Seq<char>>) -> bool {
    &&& forall|i: int|
        0 <= i < list.len() ==> map.dom().contains((#[trigger] list[i]).0) && map[list[i].0]
            == list[i].1
    &&& forall|key: Seq<char>| #[trigger] map.dom().contains(key) ==> has_key(list, key)
}

/// The pairs of a map, by ascending key.
pub open spec fn listed(map: Map<Seq<char>, Seq<char>>) -> Seq<Pair> {
    choose|list: Seq<Pair>| ascends(list) && spells_map(list, map)
}

/// A map is spelt by one ascending list only.
pub proof fn listing_is_one(a: Seq<Pair>, b: Seq<Pair>, map: Map<Seq<char>, Seq<char>>)
    requires
        ascends(a),
        ascends(b),
        spells_map(a, map),
        spells_map(b, map),
    ensures
        a == b,
    decreases a.len(),
{
    if a.len() == 0 {
        if b.len() > 0 {
            assert(map.dom().contains(b[0].0));
            assert(has_key(a, b[0].0));
        }
        assert(a =~= b);
    } else {
        let top = a.last().0;
        assert(map.dom().contains(a[a.len() - 1].0));
        assert(has_key(b, top));
        let j = choose|j: int| 0 <= j < b.len() && (#[trigger] b[j]).0 == top;
        if j < b.len() - 1 {
            let above = b.last().0;
            assert(text_less(b[j].0, b[b.len() - 1].0));
            assert(map.dom().contains(b[b.len() - 1].0));
            assert(has_key(a, above));
            let i = choose|i: int| 0 <= i < a.len() && (#[trigger] a[i]).0 == above;
            if i < a.len() - 1 {
                assert(text_less(a[i].0, a[a.len() - 1].0));
                less_transitive(top, above, top);
            }
            less_irreflexive(top);
        }
        assert(a.last() == b.last());
        let rest = map.remove(top);
        listing_shortens(a, map);
        listing_shortens(b, map);
        listing_is_one(a.drop_last(), b.drop_last(), rest);
        assert(a =~= a.drop_last().push(a.last()));
        assert(b =~= b.drop_last().push(b.last()));
    }
}

/// An ascending list without its last pair spells the map without that key.
pub proof fn listing_shortens(list: Seq<Pair>, map: Map<Seq<char>, Seq<char>>)
    requires
        list.len() > 0,
        ascends(list),
        spells_map(list, map),
    ensures
        ascends(list.drop_last()),
        spells_map(list.drop_last(), map.remove(list.last().0)),
{
    let rest = list.drop_last();
    let top = list.last().0;
    assert forall|i: int, j: int| 0 <= i < j < rest.len() implies text_less(
        #[trigger] rest[i].0,
        #[trigger] rest[j].0,
    ) by {
        assert(text_less(list[i].0, list[j].0));
    }
    assert forall|i: int| 0 <= i < rest.len() implies map.remove(top).dom().contains(
        (#[trigger] rest[i]).0,
    ) && map.remove(top)[rest[i].0] == rest[i].1 by {
        assert(text_less(list[i].0, list[list.len() - 1].0));
        less_irreflexive(top);
        assert(map.dom().contains(list[i].0));
    }
    assert forall|key: Seq<char>| #[trigger] map.remove(top).dom().contains(key) implies has_key(
        rest,
        key,
    ) by {
        assert(map.dom().contains(key));
        let i = choose|i: int| 0 <= i < list.len() && (#[trigger] list[i]).0 == key;
        assert(rest[i].0 == key);
    }
}

/// The pairs of a map, by ascending key.
pub fn text_rows(map: &TextMap<String>) -> (r: Vec<(String, String)>)
    ensures
        pair_texts(r@) == listed(map_texts(map@)),
        ascends(pair_texts(r@)),
        spells_map(pair_texts(r@), map_texts(map@)),
{
    let entries = map.entries();
    let mut rows: Vec<(String, String)> = Vec::new();
    let mut i: usize = 0;
    while i < entries.len()
        invariant
            i <= entries@.len(),
            rows@.len() == i,
            forall|k: int| 0 <= k < i ==> rows@[k] == #[trigger] entries@[k],
        decreases entries.len() - i,
    {
        rows.push((entries[i].0.clone(), entries[i].1.clone()));
        i = i + 1;
    }
    assert(rows@ =~= entries@);
    proof {
        let list = pair_texts(rows@);
        let shown = map_texts(map@);
        assert forall|i: int, j: int| 0 <= i < j < list.len() implies text_less(
            #[trigger] list[i].0,
            #[trigger] list[j].0,
        ) by {
            assert(text_less(entries@[i].0@, entries@[j].0@));
        }
        assert forall|i: int| 0 <= i < list.len() implies shown.dom().contains(
            (#[trigger] list[i]).0,
        ) && shown[list[i].0] == list[i].1 by {
            lemma_entry(entries@, i);
        }
        assert forall|key: Seq<char>| #[trigger] shown.dom().contains(key) implies has_key(
            list,
            key,
        ) by {
            let i = choose|i: int| 0 <= i < entries@.len() && (#[trigger] entries@[i]).0@ == key;
            assert(list[i].0 == key);
        }
        assert(ascends(list) && spells_map(list, shown));
        listing_is_one(list, listed(shown), shown);
    }
    rows
}

/// Texts are ordered by the first character they differ in, as a dictionary has
/// them: what goes on comes after what ends.
pub proof fn texts_differ_by_one_character(
    start: Seq<char>,
    a: char,
    b: char,
    rest_a: Seq<char>,
    rest_b: Seq<char>,
)
    ensures
        a < b ==> text_less(start + seq![a] + rest_a, start + seq![b] + rest_b),
        text_less(start, start + seq![b] + rest_b),
{
    let x = start + seq![a] + rest_a;
    let y = start + seq![b] + rest_b;
    let k = start.len() as int;
    assert(x[k] == a && y[k] == b);
    assert forall|i: int| 0 <= i < k implies x[i] == start[i] && y[i] == start[i] by {}
    if a < b {
        assert(less_at(x, y, k));
    }
    assert(less_at(start, y, k));
}

/// The entries of a map are listed each once and in the order of their keys, and there is
/// one such list.
pub proof fn a_map_is_listed_in_order(map: Map<Seq<char>, Seq<char>>, list: Seq<Pair>)
    requires
        forall|i: int, j: int|
            0 <= i < j < list.len() ==> text_less((#[trigger] list[i]).0, (#[trigger] list[j]).0),
        forall|i: int|
            0 <= i < list.len() ==> map.dom().contains((#[trigger] list[i]).0) && map[list[i].0]
                == list[i].1,
        forall|key: Seq<char>| #[trigger]
            map.dom().contains(key) ==> exists|i: int|
                0 <= i < list.len() && (#[trigger] list[i]).0 == key,
    ensures
        listed(map) == list,
{
    assert(ascends(list));
    assert forall|key: Seq<char>| #[trigger] map.dom().contains(key) implies has_key(list, key) by {
        assert(map.dom().contains(key));
    }
    assert(spells_map(list, map));
    listing_is_one(listed(map), list, map);
}

/// A map of strings reads as the texts it holds under the same keys, and a list of pairs as
/// the texts of its pairs.
pub proof fn entries_read_as_their_texts(
    map: Map<Seq<char>, String>,
    key: Seq<char>,
    list: Seq<(String, String)>,
    i: int,
)
    ensures
        map_texts(map).dom().contains(key) <==> map.dom().contains(key),
        map.dom().contains(key) ==> map_texts(map)[key] == map[key]@,
        pair_texts(list).len() == list.len(),
        0 <= i < list.len() ==> pair_texts(list)[i] == (list[i].0@, list[i].1@),
{
}

} // verus!
