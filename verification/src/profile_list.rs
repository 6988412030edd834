//! The saved profiles as rows, grouped under the folder each is filed in.

use vstd::prelude::*;

use crate::erd_pane::copy_part;
use crate::profile::{ConnectionProfile, ProfileText};
use crate::text::{blank, is_blank, maybe_text, same_text};
use crate::view::{Caption, CaptionText};

verus! {

/// Where the rows begin in the tab order, one to a profile.
pub const LIST_TAB: usize = 10;

/// Where they end, so that a long list cannot run into the form.
pub const LIST_TAB_LIMIT: usize = 99;

/// A row of the list.
#[derive(Debug, PartialEq, Eq)]
pub enum ProfileRow {
    /// The heading of a folder.
    Folder(String),
    /// A profile.
    Profile { id: u128, name: Caption, color: Option<String>, selected: bool, tab: usize },
}

/// A row of the list.
pub ghost enum RowText {
    Folder(Seq<char>),
    Profile(u128, CaptionText, Option<Seq<char>>, bool, nat),
}

impl View for ProfileRow {
    type V = RowText;

    open spec fn view(&self) -> RowText {
        match self {
            ProfileRow::Folder(name) => RowText::Folder(name@),
            ProfileRow::Profile { id, name, color, selected, tab } => RowText::Profile(
                *id,
                name@,
                maybe_text(*color),
                *selected,
                *tab as nat,
            ),
        }
    }
}

/// The profiles of a list.
pub open spec fn profile_texts(list: Seq<ConnectionProfile>) -> Seq<ProfileText> {
    list.map_values(|p: ConnectionProfile| p@)
}

/// The rows of a list.
pub open spec fn row_texts(list: Seq<ProfileRow>) -> Seq<RowText> {
    list.map_values(|r: ProfileRow| r@)
}

/// The folder a profile is filed in: an empty name is none.
pub open spec fn folder_of(profile: ProfileText) -> Option<Seq<char>> {
    match profile.folder {
        Some(folder) => if folder.len() == 0 {
            None
        } else {
            Some(folder)
        },
        None => None,
    }
}

/// The folders, in the order they first appear in.
pub open spec fn folders(list: Seq<ProfileText>) -> Seq<Option<Seq<char>>>
    decreases list.len(),
{
    if list.len() == 0 {
        Seq::empty()
    } else {
        let earlier = folders(list.drop_last());
        let folder = folder_of(list.last());
        if earlier.contains(folder) {
            earlier
        } else {
            earlier.push(folder)
        }
    }
}

/// Where the profiles of a folder stand, in order.
pub open spec fn members(list: Seq<ProfileText>, folder: Option<Seq<char>>) -> Seq<int>
    decreases list.len(),
{
    if list.len() == 0 {
        Seq::empty()
    } else {
        let earlier = members(list.drop_last(), folder);
        if folder_of(list.last()) == folder {
            earlier.push(list.len() - 1)
        } else {
            earlier
        }
    }
}

/// Where the profiles stand, folder by folder.
pub open spec fn grouped(list: Seq<ProfileText>, names: Seq<Option<Seq<char>>>) -> Seq<int>
    decreases names.len(),
{
    if names.len() == 0 {
        Seq::empty()
    } else {
        grouped(list, names.drop_last()) + members(list, names.last())
    }
}

/// The row of a profile, `index` profiles into the list.
pub open spec fn profile_row(profile: ProfileText, selected: Option<u128>, index: int) -> RowText {
    RowText::Profile(
        profile.id,
        if is_blank(profile.name) {
            CaptionText::Key("connect.unnamed")
        } else {
            CaptionText::Text(profile.name)
        },
        profile.color,
        selected == Some(profile.id),
        if LIST_TAB + index < LIST_TAB_LIMIT {
            (LIST_TAB + index) as nat
        } else {
            LIST_TAB_LIMIT as nat
        },
    )
}

/// The rows of some of the profiles, the first of them `start` profiles into the
/// list.
pub open spec fn member_rows(
    list: Seq<ProfileText>,
    at: Seq<int>,
    selected: Option<u128>,
    start: int,
) -> Seq<RowText> {
    Seq::new(at.len(), |k: int| profile_row(list[at[k]], selected, start + k))
}

/// The heading of a folder, where it has a name.
pub open spec fn heading(folder: Option<Seq<char>>) -> Seq<RowText> {
    match folder {
        Some(name) => seq![RowText::Folder(name)],
        None => Seq::empty(),
    }
}

/// The rows of the folders, one after the other.
pub open spec fn folder_rows(
    list: Seq<ProfileText>,
    names: Seq<Option<Seq<char>>>,
    selected: Option<u128>,
) -> Seq<RowText>
    decreases names.len(),
{
    if names.len() == 0 {
        Seq::empty()
    } else {
        let earlier = names.drop_last();
        folder_rows(list, earlier, selected) + heading(names.last()) + member_rows(
            list,
            members(list, names.last()),
            selected,
            grouped(list, earlier).len() as int,
        )
    }
}

/// A folder and where its profiles stand.
struct Group {
    folder: Option<String>,
    members: Vec<usize>,
}

/// The folder of each group.
spec fn group_folders(groups: Seq<Group>) -> Seq<Option<Seq<char>>> {
    groups.map_values(|g: Group| maybe_text(g.folder))
}

/// Positions as numbers.
spec fn positions(list: Seq<usize>) -> Seq<int> {
    list.map_values(|at: usize| at as int)
}

/// Whether each group holds the profiles of its folder.
spec fn groups_hold(groups: Seq<Group>, list: Seq<ProfileText>) -> bool {
    &&& group_folders(groups) == folders(list)
    &&& forall|k: int|
        0 <= k < groups.len() ==> positions((#[trigger] groups[k]).members@) == members(
            list,
            maybe_text(groups[k].folder),
        )
}

fn same_folder(a: &Option<String>, b: &Option<String>) -> (r: bool)
    ensures
        r == (maybe_text(*a) == maybe_text(*b)),
{
    match (a, b) {
        (Some(a), Some(b)) => same_text(a.as_str(), b.as_str()),
        (None, None) => true,
        _ => false,
    }
}

fn group_at(groups: &Vec<Group>, folder: &Option<String>) -> (r: usize)
    ensures
        r <= groups@.len(),
        r < groups@.len() ==> maybe_text(groups@[r as int].folder) == maybe_text(*folder),
        forall|k: int|
            0 <= k < r ==> maybe_text((#[trigger] groups@[k]).folder) != maybe_text(*folder),
{
    let mut k: usize = 0;
    while k < groups.len()
        invariant
            k <= groups@.len(),
            forall|j: int|
                0 <= j < k ==> maybe_text((#[trigger] groups@[j]).folder) != maybe_text(*folder),
        decreases groups.len() - k,
    {
        if same_folder(&groups[k].folder, folder) {
            return k;
        }
        k = k + 1;
    }
    k
}

/// No folder is named twice.
proof fn lemma_folders_distinct(list: Seq<ProfileText>)
    ensures
        folders(list).no_duplicates(),
        forall|i: int|
            0 <= i < list.len() ==> folders(list).contains(folder_of(#[trigger] list[i])),
        forall|k: int|
            0 <= k < folders(list).len() ==> members(list, #[trigger] folders(list)[k]).len() > 0,
    decreases list.len(),
{
    if list.len() > 0 {
        let shorter = list.drop_last();
        lemma_folders_distinct(shorter);
        let earlier = folders(shorter);
        let folder = folder_of(list.last());
        assert forall|i: int| 0 <= i < list.len() implies folders(list).contains(
            folder_of(#[trigger] list[i]),
        ) by {
            if i < list.len() - 1 {
                assert(shorter[i] == list[i]);
                let k = choose|k: int| 0 <= k < earlier.len() && earlier[k] == folder_of(list[i]);
                assert(folders(list)[k] == folder_of(list[i]));
            } else if !earlier.contains(folder) {
                assert(folders(list).last() == folder);
            }
        }
        assert forall|k: int| 0 <= k < folders(list).len() implies members(
            list,
            #[trigger] folders(list)[k],
        ).len() > 0 by {
            if k < earlier.len() {
                assert(earlier[k] == folders(list)[k]);
            }
        }
    }
}

/// A folder's profiles stand in the list, each once and in order.
proof fn lemma_members(list: Seq<ProfileText>, folder: Option<Seq<char>>)
    ensures
        forall|k: int|
            0 <= k < members(list, folder).len() ==> 0 <= #[trigger] members(list, folder)[k]
                < list.len() && folder_of(list[members(list, folder)[k]]) == folder,
        forall|j: int, k: int|
            0 <= j < k < members(list, folder).len() ==> #[trigger] members(list, folder)[j]
                < #[trigger] members(list, folder)[k],
        forall|i: int|
            0 <= i < list.len() && folder_of(#[trigger] list[i]) == folder ==> members(
                list,
                folder,
            ).contains(i),
    decreases list.len(),
{
    if list.len() > 0 {
        let shorter = list.drop_last();
        lemma_members(shorter, folder);
        let earlier = members(shorter, folder);
        let all = members(list, folder);
        assert forall|k: int| 0 <= k < all.len() implies 0 <= #[trigger] all[k] < list.len()
            && folder_of(list[all[k]]) == folder by {
            if k < earlier.len() {
                assert(all[k] == earlier[k]);
                assert(shorter[earlier[k]] == list[earlier[k]]);
            }
        }
        assert forall|j: int, k: int| 0 <= j < k < all.len() implies #[trigger] all[j]
            < #[trigger] all[k] by {
            assert(all[j] == earlier[j]);
            if k < earlier.len() {
                assert(all[k] == earlier[k]);
            }
        }
        assert forall|i: int|
            0 <= i < list.len() && folder_of(#[trigger] list[i]) == folder implies all.contains(
            i,
        ) by {
            if i < list.len() - 1 {
                assert(shorter[i] == list[i]);
                let k = choose|k: int| 0 <= k < earlier.len() && earlier[k] == i;
                assert(all[k] == i);
            } else {
                assert(all.last() == i);
            }
        }
    }
}

/// Sorts the profiles into their folders.
fn group(profiles: &[ConnectionProfile]) -> (r: Vec<Group>)
    ensures
        groups_hold(r@, profile_texts(profiles@)),
{
    let ghost all = profile_texts(profiles@);
    let mut groups: Vec<Group> = Vec::new();
    let mut i: usize = 0;
    assert(all.take(0) =~= Seq::<ProfileText>::empty());
    assert(group_folders(groups@) =~= Seq::<Option<Seq<char>>>::empty());
    while i < profiles.len()
        invariant
            i <= profiles@.len(),
            all == profile_texts(profiles@),
            groups_hold(groups@, all.take(i as int)),
        decreases profiles.len() - i,
    {
        let ghost so_far = all.take(i as int);
        let ghost next = all.take(i + 1);
        assert(next.drop_last() =~= so_far);
        assert(next.last() == profiles@[i as int]@);
        let ghost before = groups@;
        let folder = match &profiles[i].folder {
            Some(name) => if name.as_str().unicode_len() == 0 {
                None
            } else {
                Some(name.clone())
            },
            None => None,
        };
        let ghost key = maybe_text(folder);
        assert(key == folder_of(next.last()));
        let at: usize = group_at(&groups, &folder);
        if at < groups.len() {
            proof {
                lemma_folders_distinct(so_far);
                assert(group_folders(before)[at as int] == key);
            }
            let mut one = groups.remove(at);
            let ghost held = one.members@;
            one.members.push(i);
            let ghost changed = one;
            groups.insert(at, one);
            proof {
                assert(groups@ =~= before.update(at as int, changed));
                assert(group_folders(groups@) =~= group_folders(before));
                assert(positions(changed.members@) =~= positions(held).push(i as int));
                assert forall|k: int| 0 <= k < groups@.len() implies positions(
                    (#[trigger] groups@[k]).members@,
                ) == members(next, maybe_text(groups@[k].folder)) by {
                    if k != at {
                        assert(groups@[k] == before[k]);
                        assert(group_folders(before)[k] != group_folders(before)[at as int]);
                    }
                }
            }
        } else {
            proof {
                assert(!folders(so_far).contains(key)) by {
                    if folders(so_far).contains(key) {
                        let k = choose|k: int|
                            0 <= k < folders(so_far).len() && folders(so_far)[k] == key;
                        assert(group_folders(before)[k] == maybe_text(before[k].folder));
                    }
                }
                lemma_members(so_far, key);
                if members(so_far, key).len() > 0 {
                    let first = members(so_far, key)[0];
                    lemma_folders_distinct(so_far);
                    assert(folder_of(so_far[first]) == key);
                    assert(folders(so_far).contains(folder_of(so_far[first])));
                }
                assert(members(so_far, key) =~= Seq::<int>::empty());
            }
            let mut only: Vec<usize> = Vec::new();
            only.push(i);
            groups.push(Group { folder, members: only });
            proof {
                assert(positions(only@) =~= Seq::<int>::empty().push(i as int));
                assert(group_folders(groups@) =~= group_folders(before).push(key));
                assert forall|k: int| 0 <= k < groups@.len() implies positions(
                    (#[trigger] groups@[k]).members@,
                ) == members(next, maybe_text(groups@[k].folder)) by {
                    if k < before.len() {
                        assert(groups@[k] == before[k]);
                        assert(maybe_text(before[k].folder) != key);
                    }
                }
            }
        }
        i = i + 1;
    }
    assert(all.take(all.len() as int) =~= all);
    groups
}

/// The saved profiles as rows: filed under their folders, which keep the order
/// they first appear in, each named by its name and marked with its colour.
pub fn profile_rows(profiles: &[ConnectionProfile], selected: Option<u128>) -> (r: Vec<ProfileRow>)
    ensures
        ({
            let list = profile_texts(profiles@);
            row_texts(r@) == folder_rows(list, folders(list), selected)
        }),
{
    let ghost list = profile_texts(profiles@);
    let ghost names = folders(list);
    let groups = group(profiles);
    let mut rows: Vec<ProfileRow> = Vec::new();
    let mut index: usize = 0;
    let mut g: usize = 0;
    assert(names.take(0) =~= Seq::<Option<Seq<char>>>::empty());
    assert(row_texts(rows@) =~= Seq::<RowText>::empty());
    while g < groups.len()
        invariant
            g <= groups@.len(),
            list == profile_texts(profiles@),
            names == folders(list),
            groups_hold(groups@, list),
            index <= LIST_TAB_LIMIT,
            index == (if grouped(list, names.take(g as int)).len() < LIST_TAB_LIMIT {
                grouped(list, names.take(g as int)).len() as int
            } else {
                LIST_TAB_LIMIT as int
            }),
            row_texts(rows@) == folder_rows(list, names.take(g as int), selected),
        decreases groups.len() - g,
    {
        let ghost start = grouped(list, names.take(g as int)).len() as int;
        let ghost folder = maybe_text(groups@[g as int].folder);
        let ghost next = names.take(g + 1);
        proof {
            assert(group_folders(groups@)[g as int] == folder);
            assert(next.drop_last() =~= names.take(g as int));
            assert(next.last() == folder);
        }
        let ghost before = row_texts(rows@);
        match &groups[g].folder {
            Some(name) => {
                rows.push(ProfileRow::Folder(name.clone()));
            },
            None => {},
        }
        assert(row_texts(rows@) =~= before + heading(folder));
        let ghost headed = row_texts(rows@);
        let ghost at = members(list, folder);
        proof {
            lemma_members(list, folder);
        }
        let places = &groups[g].members;
        let mut m: usize = 0;
        assert(headed + member_rows(list, at.take(0), selected, start) =~= headed);
        while m < places.len()
            invariant
                m <= places@.len(),
                list == profile_texts(profiles@),
                positions(places@) == at,
                forall|k: int| 0 <= k < at.len() ==> 0 <= #[trigger] at[k] < list.len(),
                index <= LIST_TAB_LIMIT,
                start >= 0,
                index == (if start + m < LIST_TAB_LIMIT {
                    start + m
                } else {
                    LIST_TAB_LIMIT as int
                }),
                row_texts(rows@) == headed + member_rows(list, at.take(m as int), selected, start),
            decreases places.len() - m,
        {
            let place: usize = places[m];
            assert(positions(places@)[m as int] == place);
            assert(0 <= at[m as int] < list.len());
            let profile = &profiles[place];
            assert(list[at[m as int]] == profile@);
            let tab: usize = if LIST_TAB + index < LIST_TAB_LIMIT {
                LIST_TAB + index
            } else {
                LIST_TAB_LIMIT
            };
            let name = if blank(profile.name.as_str()) {
                Caption::Key("connect.unnamed")
            } else {
                Caption::Text(profile.name.clone())
            };
            let chosen = match selected {
                Some(id) => id == profile.id,
                None => false,
            };
            let ghost earlier = row_texts(rows@);
            let row = ProfileRow::Profile {
                id: profile.id,
                name,
                color: copy_part(&profile.color),
                selected: chosen,
                tab,
            };
            let ghost shown = row@;
            rows.push(row);
            proof {
                assert(shown == profile_row(list[at[m as int]], selected, start + m));
                assert(row_texts(rows@) =~= earlier.push(shown));
                assert(headed + member_rows(list, at.take(m + 1), selected, start) =~= (headed
                    + member_rows(list, at.take(m as int), selected, start)).push(shown));
            }
            if index < LIST_TAB_LIMIT {
                index = index + 1;
            }
            m = m + 1;
        }
        proof {
            assert(at.take(at.len() as int) =~= at);
            assert(grouped(list, next).len() == start + at.len());
        }
        g = g + 1;
    }
    assert(names.len() == groups@.len()) by {
        assert(group_folders(groups@).len() == groups@.len());
    }
    assert(names.take(names.len() as int) =~= names);
    rows
}

/// Grouping moves the profiles and loses none: every profile of the list has a
/// row, and no profile has two.
pub proof fn every_profile_has_one_row(list: Seq<ProfileText>)
    ensures
        grouped(list, folders(list)).no_duplicates(),
        forall|i: int|
            0 <= i < list.len() ==> #[trigger] grouped(list, folders(list)).contains(i),
        forall|k: int|
            0 <= k < grouped(list, folders(list)).len() ==> 0 <= #[trigger] grouped(
                list,
                folders(list),
            )[k] < list.len(),
{
    let names = folders(list);
    lemma_folders_distinct(list);
    lemma_grouped(list, names);
    assert forall|i: int| 0 <= i < list.len() implies #[trigger] grouped(list, names).contains(
        i,
    ) by {
        assert(names.contains(folder_of(list[i])));
    }
}

/// The profiles of some folders stand in the list, each once.
proof fn lemma_grouped(list: Seq<ProfileText>, names: Seq<Option<Seq<char>>>)
    requires
        names.no_duplicates(),
    ensures
        grouped(list, names).no_duplicates(),
        forall|k: int|
            0 <= k < grouped(list, names).len() ==> 0 <= #[trigger] grouped(list, names)[k]
                < list.len() && names.contains(folder_of(list[grouped(list, names)[k]])),
        forall|i: int|
            0 <= i < list.len() && names.contains(folder_of(#[trigger] list[i])) ==> grouped(
                list,
                names,
            ).contains(i),
    decreases names.len(),
{
    if names.len() > 0 {
        let fewer = names.drop_last();
        let folder = names.last();
        assert(fewer.no_duplicates());
        lemma_grouped(list, fewer);
        lemma_members(list, folder);
        let first = grouped(list, fewer);
        let second = members(list, folder);
        let all = first + second;
        assert forall|k: int| 0 <= k < all.len() implies 0 <= #[trigger] all[k] < list.len()
            && names.contains(folder_of(list[all[k]])) by {
            if k < first.len() {
                assert(all[k] == first[k]);
                let at = folder_of(list[first[k]]);
                let j = choose|j: int| 0 <= j < fewer.len() && fewer[j] == at;
                assert(names[j] == at);
            } else {
                assert(all[k] == second[k - first.len()]);
                assert(names[names.len() - 1] == folder);
            }
        }
        assert forall|j: int, k: int| 0 <= j < k < all.len() implies all[j] != all[k] by {
            if k < first.len() {
                assert(all[j] == first[j] && all[k] == first[k]);
            } else if j >= first.len() {
                assert(second[j - first.len()] < second[k - first.len()]);
            } else {
                assert(all[j] == first[j]);
                assert(all[k] == second[k - first.len()]);
                assert(fewer.contains(folder_of(list[first[j]])));
                if all[j] == all[k] {
                    let n = choose|n: int| 0 <= n < fewer.len() && fewer[n] == folder;
                    assert(names[n] == names[names.len() - 1]);
                }
            }
        }
        assert forall|i: int|
            0 <= i < list.len() && names.contains(folder_of(#[trigger] list[i])) implies all.contains(
            i,
        ) by {
            let at = folder_of(list[i]);
            let n = choose|n: int| 0 <= n < names.len() && names[n] == at;
            if n < fewer.len() {
                assert(fewer[n] == at);
                assert(fewer.contains(at));
                let k = choose|k: int| 0 <= k < first.len() && first[k] == i;
                assert(all[k] == i);
            } else {
                let k = choose|k: int| 0 <= k < second.len() && second[k] == i;
                assert(all[first.len() + k] == i);
            }
        }
    }
}

/// Whether a profile is filed under a name, or under none: an empty name files
/// nothing.
pub open spec fn filed_under(profile: ProfileText, name: Option<Seq<char>>) -> bool {
    match name {
        Some(name) => name.len() > 0 && profile.folder == Some(name),
        None => profile.folder is None || profile.folder == Some(Seq::<char>::empty()),
    }
}

/// The profiles filed under a name, in the order of the list.
pub open spec fn filed(list: Seq<ProfileText>, name: Option<Seq<char>>) -> Seq<ProfileText> {
    list.filter(|p: ProfileText| filed_under(p, name))
}

/// A row is that of a profile.
pub open spec fn is_profile() -> spec_fn(RowText) -> bool {
    |row: RowText| row is Profile
}

/// A name that files nothing is filed under none, and any other under itself.
proof fn lemma_filed_under(profile: ProfileText, name: Option<Seq<char>>)
    requires
        name matches Some(text) ==> text.len() > 0,
    ensures
        filed_under(profile, name) <==> folder_of(profile) == name,
{
    if profile.folder is Some && profile.folder.unwrap().len() == 0 {
        assert(profile.folder.unwrap() =~= Seq::<char>::empty());
    }
}

/// The profiles of a folder are those filed under its name.
proof fn lemma_members_are_filed(list: Seq<ProfileText>, name: Option<Seq<char>>)
    requires
        name matches Some(text) ==> text.len() > 0,
    ensures
        members(list, name).len() == filed(list, name).len(),
        forall|k: int|
            0 <= k < members(list, name).len() ==> 0 <= #[trigger] members(list, name)[k]
                < list.len() && list[members(list, name)[k]] == filed(list, name)[k],
    decreases list.len(),
{
    reveal(Seq::filter);
    if list.len() > 0 {
        lemma_members_are_filed(list.drop_last(), name);
        lemma_filed_under(list.last(), name);
        let earlier = members(list.drop_last(), name);
        assert forall|k: int| 0 <= k < members(list, name).len() implies 0 <= #[trigger] members(
            list,
            name,
        )[k] < list.len() && list[members(list, name)[k]] == filed(list, name)[k] by {
            if k < earlier.len() {
                assert(members(list, name)[k] == earlier[k]);
                assert(list.drop_last()[earlier[k]] == filed(list.drop_last(), name)[k]);
            }
        }
    }
}

/// A filter that every entry passes keeps the list.
proof fn lemma_all_profiles(rows: Seq<RowText>)
    requires
        forall|i: int| 0 <= i < rows.len() ==> (#[trigger] rows[i]) is Profile,
    ensures
        rows.filter(is_profile()) == rows,
    decreases rows.len(),
{
    reveal(Seq::filter);
    if rows.len() > 0 {
        lemma_all_profiles(rows.drop_last());
        assert(rows.drop_last().push(rows.last()) =~= rows);
    }
}

/// The rows of profiles among those of some folders are as many as the profiles.
proof fn lemma_profile_rows(
    list: Seq<ProfileText>,
    names: Seq<Option<Seq<char>>>,
    selected: Option<u128>,
)
    ensures
        folder_rows(list, names, selected).filter(is_profile()).len() == grouped(
            list,
            names,
        ).len(),
    decreases names.len(),
{
    reveal(Seq::filter);
    if names.len() > 0 {
        let fewer = names.drop_last();
        lemma_profile_rows(list, fewer, selected);
        let before = folder_rows(list, fewer, selected);
        let title = heading(names.last());
        let inside = member_rows(
            list,
            members(list, names.last()),
            selected,
            grouped(list, fewer).len() as int,
        );
        Seq::filter_distributes_over_add(before + title, inside, is_profile());
        Seq::filter_distributes_over_add(before, title, is_profile());
        lemma_all_profiles(inside);
        assert(title.filter(is_profile()).len() == 0) by {
            if title.len() > 0 {
                assert(title.drop_last().filter(is_profile()).len() == 0);
            }
        }
    }
}

/// A folder is shown behind the folders before it: its name where it has one, and
/// under it a row for each profile filed there, in the order of the list. A row says
/// which profile it is, by its name where it has one, with its colour, whether it is
/// the one selected, and where it stands in the tab order: one further for each
/// profile, up to the limit.
pub proof fn a_folder_is_shown_with_its_profiles(
    list: Seq<ProfileText>,
    names: Seq<Option<Seq<char>>>,
    name: Option<Seq<char>>,
    selected: Option<u128>,
)
    requires
        name matches Some(text) ==> text.len() > 0,
    ensures
        ({
            let before = folder_rows(list, names, selected);
            let after = folder_rows(list, names.push(name), selected);
            let shown = before.filter(is_profile()).len();
            let inside = filed(list, name);
            let start: int = before.len() + if name is Some {
                1int
            } else {
                0
            };
            &&& after.len() == start + inside.len()
            &&& after.take(before.len() as int) == before
            &&& name matches Some(text) ==> after[before.len() as int] == RowText::Folder(text)
            &&& forall|k: int|
                0 <= k < inside.len() ==> match #[trigger] after[start + k] {
                    RowText::Folder(_) => false,
                    RowText::Profile(id, label, color, marked, tab) => {
                        &&& id == inside[k].id
                        &&& label == if is_blank(inside[k].name) {
                            CaptionText::Key("connect.unnamed")
                        } else {
                            CaptionText::Text(inside[k].name)
                        }
                        &&& color == inside[k].color
                        &&& marked <==> selected == Some(inside[k].id)
                        &&& tab == if shown + k <= LIST_TAB_LIMIT - LIST_TAB {
                            LIST_TAB + shown + k
                        } else {
                            LIST_TAB_LIMIT as int
                        }
                    },
                }
        }),
{
    let all = names.push(name);
    assert(all.drop_last() =~= names);
    assert(all.last() == name);
    lemma_members_are_filed(list, name);
    lemma_profile_rows(list, names, selected);
    let before = folder_rows(list, names, selected);
    let after = folder_rows(list, all, selected);
    assert(after.take(before.len() as int) =~= before);
    let at = members(list, name);
    let rows = member_rows(list, at, selected, grouped(list, names).len() as int);
    let start: int = before.len() + heading(name).len() as int;
    assert forall|k: int| 0 <= k < filed(list, name).len() implies #[trigger] after[start + k]
        == profile_row(filed(list, name)[k], selected, grouped(list, names).len() + k) by {
        assert(after[start + k] == rows[k]);
        assert(list[at[k]] == filed(list, name)[k]);
    }
}

/// One profile more adds its folder behind the others where it is the first to be
/// filed there, and no folder otherwise; no profiles have no folders, and no folders
/// no rows.
pub proof fn a_folder_stands_where_it_first_appears(
    list: Seq<ProfileText>,
    profile: ProfileText,
    name: Option<Seq<char>>,
    selected: Option<u128>,
)
    requires
        filed_under(profile, name),
    ensures
        folders(Seq::<ProfileText>::empty()) == Seq::<Option<Seq<char>>>::empty(),
        folder_rows(list, Seq::empty(), selected) == Seq::<RowText>::empty(),
        folders(list.push(profile)) == if exists|i: int|
            0 <= i < list.len() && filed_under(#[trigger] list[i], name) {
            folders(list)
        } else {
            folders(list).push(name)
        },
{
    lemma_filed_under(profile, name);
    lemma_folders_distinct(list);
    assert(list.push(profile).drop_last() =~= list);
    if exists|i: int| 0 <= i < list.len() && filed_under(#[trigger] list[i], name) {
        let i = choose|i: int| 0 <= i < list.len() && filed_under(#[trigger] list[i], name);
        lemma_filed_under(list[i], name);
        assert(folders(list).contains(folder_of(list[i])));
    } else if folders(list).contains(name) {
        let k = choose|k: int| 0 <= k < folders(list).len() && folders(list)[k] == name;
        lemma_members(list, name);
        assert(members(list, folders(list)[k]).len() > 0);
        let at = members(list, name)[0];
        assert(folder_of(list[at]) == name);
        lemma_filed_under(list[at], name);
        assert(filed_under(list[at], name));
    }
}

/// A row of the list reads as what it holds.
pub proof fn a_row_reads_as_it_is(row: ProfileRow)
    ensures
        match row {
            ProfileRow::Folder(name) => row@ == RowText::Folder(name@),
            ProfileRow::Profile { id, name, color, selected, tab } => row@ == RowText::Profile(
                id,
                name@,
                maybe_text(color),
                selected,
                tab as nat,
            ),
        },
{
}

} // verus!
