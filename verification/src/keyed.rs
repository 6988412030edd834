//! Lists whose entries answer to a key: the first entry that does is the one.

use vstd::prelude::*;

verus! {

/// Where the first entry stands that `same` holds of.
pub open spec fn first_match<T>(list: Seq<T>, same: spec_fn(T) -> bool) -> Option<int>
    decreases list.len(),
{
    if list.len() == 0 {
        None
    } else {
        match first_match(list.drop_last(), same) {
            Some(at) => Some(at),
            None => if same(list.last()) {
                Some(list.len() - 1)
            } else {
                None
            },
        }
    }
}

/// The first entry that `same` holds of.
pub open spec fn found<T>(list: Seq<T>, same: spec_fn(T) -> bool) -> Option<T> {
    match first_match(list, same) {
        Some(at) => Some(list[at]),
        None => None,
    }
}

/// The list with `item` in place of the first entry that `same` holds of, or
/// behind the rest where it holds of none.
pub open spec fn put<T>(list: Seq<T>, same: spec_fn(T) -> bool, item: T) -> Seq<T> {
    match first_match(list, same) {
        Some(at) => list.update(at, item),
        None => list.push(item),
    }
}

/// The list without the first entry that `same` holds of.
pub open spec fn without<T>(list: Seq<T>, same: spec_fn(T) -> bool) -> Seq<T> {
    match first_match(list, same) {
        Some(at) => list.remove(at),
        None => list,
    }
}

/// What `first_match` says of the entries.
pub proof fn first_match_is_first<T>(list: Seq<T>, same: spec_fn(T) -> bool)
    ensures
        match first_match(list, same) {
            Some(at) => 0 <= at < list.len() && same(list[at]) && forall|k: int|
                0 <= k < at ==> !same(#[trigger] list[k]),
            None => forall|k: int| 0 <= k < list.len() ==> !same(#[trigger] list[k]),
        },
    decreases list.len(),
{
    if list.len() > 0 {
        let shorter = list.drop_last();
        first_match_is_first(shorter, same);
        match first_match(shorter, same) {
            Some(at) => {
                assert forall|k: int| 0 <= k < at implies !same(#[trigger] list[k]) by {
                    assert(!same(shorter[k]));
                }
            },
            None => {
                assert forall|k: int| 0 <= k < list.len() - 1 implies !same(#[trigger] list[k]) by {
                    assert(!same(shorter[k]));
                }
            },
        }
    }
}

/// The one place with nothing before it is the first.
pub proof fn first_is_matched<T>(list: Seq<T>, same: spec_fn(T) -> bool, at: int)
    requires
        0 <= at < list.len(),
        same(list[at]),
        forall|k: int| 0 <= k < at ==> !same(#[trigger] list[k]),
    ensures
        first_match(list, same) == Some(at),
{
    first_match_is_first(list, same);
}

/// What was put in under a key is what is found under it.
pub proof fn put_is_found<T>(list: Seq<T>, same: spec_fn(T) -> bool, item: T)
    requires
        same(item),
    ensures
        found(put(list, same, item), same) == Some(item),
{
    first_match_is_first(list, same);
    let after = put(list, same, item);
    match first_match(list, same) {
        Some(at) => {
            assert forall|k: int| 0 <= k < at implies !same(#[trigger] after[k]) by {
                assert(after[k] == list[k]);
            }
            first_is_matched(after, same, at);
        },
        None => {
            assert forall|k: int| 0 <= k < list.len() implies !same(#[trigger] after[k]) by {
                assert(after[k] == list[k]);
            }
            first_is_matched(after, same, list.len() as int);
        },
    }
}

/// Putting something in under one key leaves what is found under another, as long
/// as nothing answers to both.
pub proof fn put_keeps_others<T>(
    list: Seq<T>,
    same: spec_fn(T) -> bool,
    item: T,
    other: spec_fn(T) -> bool,
)
    requires
        same(item),
        forall|t: T| !(#[trigger] same(t) && other(t)),
    ensures
        found(put(list, same, item), other) == found(list, other),
{
    first_match_is_first(list, same);
    first_match_is_first(list, other);
    let after = put(list, same, item);
    assert(!other(item));
    match first_match(list, other) {
        Some(at) => {
            assert(!same(list[at]));
            assert forall|k: int| 0 <= k < at implies !other(#[trigger] after[k]) by {
                if after[k] != item {
                    assert(after[k] == list[k]);
                }
            }
            assert(after[at] == list[at]);
            first_is_matched(after, other, at);
        },
        None => {
            first_match_is_first(after, other);
            if first_match(after, other) is Some {
                let at = first_match(after, other).unwrap();
                if after[at] != item {
                    assert(after[at] == list[at]);
                    assert(!other(list[at]));
                }
            }
        },
    }
}

/// Where an entry answers to a key and none before it does, that entry is the one
/// found, the one replaced and the one taken out, and every other stays where it
/// is.
pub proof fn only_the_first_is_touched<T>(
    list: Seq<T>,
    same: spec_fn(T) -> bool,
    item: T,
    at: int,
)
    requires
        0 <= at < list.len(),
        same(list[at]),
        forall|k: int| 0 <= k < at ==> !same(#[trigger] list[k]),
    ensures
        found(list, same) == Some(list[at]),
        put(list, same, item) == list.take(at).push(item) + list.skip(at + 1),
        without(list, same) == list.take(at) + list.skip(at + 1),
{
    first_is_matched(list, same, at);
    assert(put(list, same, item) =~= list.take(at).push(item) + list.skip(at + 1));
    assert(without(list, same) =~= list.take(at) + list.skip(at + 1));
}

/// Where no entry answers to a key, nothing is found, what is put in goes behind
/// the rest, and taking out changes nothing.
pub proof fn what_is_missing_goes_last<T>(list: Seq<T>, same: spec_fn(T) -> bool, item: T)
    requires
        forall|k: int| 0 <= k < list.len() ==> !same(#[trigger] list[k]),
    ensures
        found(list, same) is None,
        put(list, same, item) == list + seq![item],
        without(list, same) == list,
{
    first_match_is_first(list, same);
    assert(put(list, same, item) =~= list + seq![item]);
}

} // verus!
