//! Where the boxes of a diagram were left: one file per connection profile, one
//! entry per scope in it, and under it a table name to a position.
//!
//! Keyed by the profile rather than by the open connection, because an
//! arrangement is worth more than a tab. Only the positions are here: the model
//! itself is rebuilt from the catalogue every time a diagram is opened.

use vstd::prelude::*;

use crate::erd_pane::{copy_part, Scope};
use crate::ordered::{entry_map, entry_map_grows, keys_ascend, TextMap};
use crate::text::{as_text, maybe_text, same_text};

verus! {

/// Schema version written by this build. Informational: a file carrying another
/// number still loads.
pub const CURRENT_VERSION: u32 = 1;

/// One table's top-left corner, in the diagram's own coordinates.
///
/// The coordinates are carried and never computed with: each is the bit pattern
/// of a single-precision number.
#[derive(Clone, Copy, Debug, PartialEq, Eq, Structural)]
pub struct Position {
    /// Distance from the diagram's origin, rightwards.
    pub x: u32,
    /// Distance from the diagram's origin, downwards.
    pub y: u32,
}

/// Every table position of one scope.
pub struct ScopeLayout {
    /// The catalogue, when the scope names one.
    pub catalog: Option<String>,
    /// The schema, likewise.
    pub schema: Option<String>,
    /// Where each table's box is, by the table's name in dictionary order: saving
    /// an arrangement the user did not change rewrites the same bytes.
    pub tables: TextMap<Position>,
}

/// Every table position of one scope.
#[verifier::ext_equal]
pub ghost struct LayoutText {
    pub catalog: Option<Seq<char>>,
    pub schema: Option<Seq<char>>,
    pub tables: Map<Seq<char>, Position>,
}

impl View for ScopeLayout {
    type V = LayoutText;

    open spec fn view(&self) -> LayoutText {
        LayoutText {
            catalog: maybe_text(self.catalog),
            schema: maybe_text(self.schema),
            tables: self.tables@,
        }
    }
}

/// One profile's saved diagram layouts.
pub struct ErdLayouts {
    /// Schema version of the file.
    pub version: u32,
    /// One entry per scope a diagram has been opened on.
    pub scopes: Vec<ScopeLayout>,
}

impl View for ErdLayouts {
    type V = Seq<LayoutText>;

    open spec fn view(&self) -> Seq<LayoutText> {
        self.scopes@.map_values(|s: ScopeLayout| s@)
    }
}

impl Default for ErdLayouts {
    fn default() -> (r: Self)
        ensures
            r.version == 0,
            r@ == Seq::<LayoutText>::empty(),
    {
        let r = ErdLayouts { version: 0, scopes: Vec::new() };
        assert(r@ =~= Seq::<LayoutText>::empty());
        r
    }
}

/// Whether an entry is about the scope.
pub open spec fn is_of_scope(entry: LayoutText, scope: Scope) -> bool {
    entry.catalog == maybe_text(scope.catalog) && entry.schema == maybe_text(scope.schema)
}

/// Where the boxes of a scope were left: what the first entry about it says, and
/// nowhere where there is none.
pub open spec fn positions_in(list: Seq<LayoutText>, scope: Scope) -> Map<Seq<char>, Position>
    decreases list.len(),
{
    if list.len() == 0 {
        Map::empty()
    } else if is_of_scope(list[0], scope) {
        list[0].tables
    } else {
        positions_in(list.subrange(1, list.len() as int), scope)
    }
}

/// The entries once the boxes of a scope were put elsewhere: the first entry about
/// it replaced, or a new one behind the rest.
pub open spec fn positions_put(
    list: Seq<LayoutText>,
    scope: Scope,
    tables: Map<Seq<char>, Position>,
) -> Seq<LayoutText>
    decreases list.len(),
{
    if list.len() == 0 {
        seq![
            LayoutText {
                catalog: maybe_text(scope.catalog),
                schema: maybe_text(scope.schema),
                tables,
            },
        ]
    } else if is_of_scope(list[0], scope) {
        list.update(0, LayoutText { tables, ..list[0] })
    } else {
        seq![list[0]] + positions_put(list.subrange(1, list.len() as int), scope, tables)
    }
}

/// A copy of the positions of a scope.
pub fn copy_positions(tables: &TextMap<Position>) -> (r: TextMap<Position>)
    ensures
        r@ == tables@,
{
    let entries = tables.entries();
    let mut out: TextMap<Position> = TextMap::new();
    let mut i: usize = 0;
    assert(out@ =~= entry_map(entries@.take(0)));
    while i < entries.len()
        invariant
            i <= entries@.len(),
            keys_ascend(entries@),
            out@ == entry_map(entries@.take(i as int)),
        decreases entries.len() - i,
    {
        proof {
            entry_map_grows(entries@, i as int);
        }
        out.insert(entries[i].0.clone(), entries[i].1);
        i = i + 1;
    }
    assert(entries@.take(entries@.len() as int) =~= entries@);
    out
}

/// Whether an entry is about the scope.
fn about_scope(entry: &ScopeLayout, scope: &Scope) -> (r: bool)
    ensures
        r == is_of_scope(entry@, *scope),
{
    let catalog = match (as_text(&entry.catalog), as_text(&scope.catalog)) {
        (None, None) => true,
        (Some(a), Some(b)) => same_text(a, b),
        _ => false,
    };
    let schema = match (as_text(&entry.schema), as_text(&scope.schema)) {
        (None, None) => true,
        (Some(a), Some(b)) => same_text(a, b),
        _ => false,
    };
    catalog && schema
}

/// The lower-case hexadecimal digit that stands for `d`, which is below sixteen.
pub open spec fn hex_char(d: nat) -> char {
    if d < 10 {
        crate::text::digit_char(d)
    } else if d == 10 {
        'a'
    } else if d == 11 {
        'b'
    } else if d == 12 {
        'c'
    } else if d == 13 {
        'd'
    } else if d == 14 {
        'e'
    } else {
        'f'
    }
}

/// The last `n` hexadecimal digits of `id`, most significant first.
pub open spec fn hex_text(id: nat, n: nat) -> Seq<char>
    decreases n,
{
    if n == 0 {
        Seq::empty()
    } else {
        hex_text(id / 16, (n - 1) as nat).push(hex_char(id % 16))
    }
}

/// How an identifier of 128 bits is written: thirty-two hexadecimal digits with a
/// hyphen after the eighth, the twelfth, the sixteenth and the twentieth.
pub open spec fn uuid_chars(id: nat) -> Seq<char> {
    let digits = hex_text(id, 32);
    digits.subrange(0, 8) + seq!['-'] + digits.subrange(8, 12) + seq!['-'] + digits.subrange(12, 16)
        + seq!['-'] + digits.subrange(16, 20) + seq!['-'] + digits.subrange(20, 32)
}

/// The text of an identifier, as `uuid::Uuid` displays it: its 128 bits, from the
/// most significant on, as lower-case hexadecimal digits in five groups of eight,
/// four, four, four and twelve with a hyphen between each two.
#[verifier::external_body]
pub(crate) fn uuid_text(id: u128) -> (r: String)
    ensures
        r@ == uuid_chars(id as nat),
{
    uuid::Uuid::from_u128(id).to_string()
}

/// The name of the file one profile's layouts live in.
pub open spec fn layout_file(profile: nat) -> Seq<char> {
    uuid_chars(profile) + ".json"@
}

/// The contents of a file without the byte order mark some editors put in front.
pub open spec fn without_mark(data: Seq<u8>) -> Seq<u8> {
    if data.len() >= 3 && data[0] == 0xEF && data[1] == 0xBB && data[2] == 0xBF {
        data.skip(3)
    } else {
        data
    }
}

/// The contents of a file without a leading byte order mark of UTF-8.
pub fn strip_bom(data: &[u8]) -> (r: &[u8])
    ensures
        r@ == without_mark(data@),
{
    if data.len() >= 3 && data[0] == 0xEF && data[1] == 0xBB && data[2] == 0xBF {
        let rest = vstd::slice::slice_subrange(data, 3, data.len());
        assert(rest@ =~= data@.skip(3));
        rest
    } else {
        data
    }
}

impl ErdLayouts {
    /// The name of the file one profile's layouts live in.
    pub fn file_for(profile: u128) -> (r: String)
        ensures
            r@ == layout_file(profile as nat),
    {
        let mut name = uuid_text(profile);
        name.append(".json");
        name
    }

    /// Where `scope`'s boxes were left. Nothing for a scope the file says nothing
    /// about, which makes a first open fall back to the grid layout.
    pub fn positions(&self, scope: &Scope) -> (r: TextMap<Position>)
        ensures
            r@ == positions_in(self@, *scope),
    {
        let mut i: usize = 0;
        assert(self@.subrange(0, self@.len() as int) =~= self@);
        while i < self.scopes.len()
            invariant
                i <= self.scopes@.len(),
                positions_in(self@, *scope) == positions_in(
                    self@.subrange(i as int, self@.len() as int),
                    *scope,
                ),
            decreases self.scopes.len() - i,
        {
            let ghost rest = self@.subrange(i as int, self@.len() as int);
            assert(rest[0] == self.scopes@[i as int]@);
            if about_scope(&self.scopes[i], scope) {
                return copy_positions(&self.scopes[i].tables);
            }
            assert(rest.subrange(1, rest.len() as int) =~= self@.subrange(i + 1, self@.len() as int));
            i = i + 1;
        }
        TextMap::new()
    }

    /// Replaces `scope`'s boxes with `positions`, adding the scope if it is new. A
    /// replacement rather than a merge: anything left behind would be a table the
    /// schema no longer has.
    pub fn set_positions(&mut self, scope: &Scope, positions: TextMap<Position>)
        ensures
            final(self)@ == positions_put(old(self)@, *scope, positions@),
            final(self).version == CURRENT_VERSION,
    {
        self.version = CURRENT_VERSION;
        let ghost all = self@;
        let ghost tables = positions@;
        let mut i: usize = 0;
        assert(all.subrange(0, all.len() as int) =~= all);
        assert(all.take(0) + positions_put(all, *scope, tables) =~= positions_put(
            all,
            *scope,
            tables,
        ));
        while i < self.scopes.len()
            invariant
                i <= self.scopes@.len(),
                self@ == all,
                all == old(self)@,
                self.version == CURRENT_VERSION,
                tables == positions@,
                positions_put(all, *scope, tables) == all.take(i as int) + positions_put(
                    all.subrange(i as int, all.len() as int),
                    *scope,
                    tables,
                ),
            decreases self.scopes.len() - i,
        {
            let ghost rest = all.subrange(i as int, all.len() as int);
            assert(rest[0] == self.scopes@[i as int]@);
            if about_scope(&self.scopes[i], scope) {
                let entry = self.scopes.remove(i);
                let ghost was = entry@;
                let changed = ScopeLayout {
                    catalog: entry.catalog,
                    schema: entry.schema,
                    tables: positions,
                };
                self.scopes.insert(i, changed);
                proof {
                    assert(self@ =~= all.update(i as int, LayoutText { tables, ..was }));
                    assert(all.take(i as int) + rest.update(0, LayoutText { tables, ..was })
                        =~= all.update(i as int, LayoutText { tables, ..was }));
                }
                return;
            }
            proof {
                assert(rest.subrange(1, rest.len() as int) =~= all.subrange(i + 1, all.len() as int));
                let tail = positions_put(all.subrange(i + 1, all.len() as int), *scope, tables);
                assert(all.take(i as int) + (seq![rest[0]] + tail) =~= all.take(i + 1) + tail);
            }
            i = i + 1;
        }
        let entry = ScopeLayout {
            catalog: copy_part(&scope.catalog),
            schema: copy_part(&scope.schema),
            tables: positions,
        };
        self.scopes.push(entry);
        proof {
            assert(all.subrange(all.len() as int, all.len() as int) =~= Seq::<LayoutText>::empty());
            assert(self@ =~= all.push(entry@));
            assert(all.take(all.len() as int) + seq![entry@] =~= all.push(entry@));
        }
    }
}

/// What was saved for a scope is what is read back for it, and what was saved for
/// any other scope stays.
pub proof fn positions_survive(
    list: Seq<LayoutText>,
    scope: Scope,
    tables: Map<Seq<char>, Position>,
    other: Scope,
)
    ensures
        positions_in(positions_put(list, scope, tables), scope) == tables,
        maybe_text(other.catalog) != maybe_text(scope.catalog) || maybe_text(other.schema)
            != maybe_text(scope.schema) ==> positions_in(
            positions_put(list, scope, tables),
            other,
        ) == positions_in(list, other),
    decreases list.len(),
{
    let after = positions_put(list, scope, tables);
    if list.len() == 0 {
        assert(after.subrange(1, after.len() as int) =~= list);
        assert(positions_in(list, other) == Map::<Seq<char>, Position>::empty());
    } else if is_of_scope(list[0], scope) {
        assert(after.subrange(1, after.len() as int) =~= list.subrange(1, list.len() as int));
    } else {
        let rest = list.subrange(1, list.len() as int);
        positions_survive(rest, scope, tables, other);
        assert(after.subrange(1, after.len() as int) =~= positions_put(rest, scope, tables));
    }
}

/// Saving a scope again does not add a second entry for it.
pub proof fn a_scope_is_saved_once(
    list: Seq<LayoutText>,
    scope: Scope,
    first: Map<Seq<char>, Position>,
    second: Map<Seq<char>, Position>,
)
    ensures
        positions_put(positions_put(list, scope, first), scope, second) == positions_put(
            list,
            scope,
            second,
        ),
    decreases list.len(),
{
    let once = positions_put(list, scope, first);
    if list.len() > 0 && !is_of_scope(list[0], scope) {
        let rest = list.subrange(1, list.len() as int);
        a_scope_is_saved_once(rest, scope, first, second);
        assert(once.subrange(1, once.len() as int) =~= positions_put(rest, scope, first));
        assert(once[0] == list[0]);
    } else {
        assert(positions_put(once, scope, second) =~= positions_put(list, scope, second));
    }
}

/// How many numbers `n` hexadecimal digits can write.
spec fn hex_span(n: nat) -> nat
    decreases n,
{
    if n == 0 {
        1
    } else {
        16 * hex_span((n - 1) as nat)
    }
}

/// Different numbers are written differently, as long as the digits suffice.
proof fn lemma_hex_injective(a: nat, b: nat, n: nat)
    requires
        a < hex_span(n),
        b < hex_span(n),
        hex_text(a, n) == hex_text(b, n),
    ensures
        a == b,
    decreases n,
{
    if n > 0 {
        let shorter = (n - 1) as nat;
        let x = hex_text(a, n);
        let y = hex_text(b, n);
        assert(x.drop_last() =~= hex_text(a / 16, shorter));
        assert(y.drop_last() =~= hex_text(b / 16, shorter));
        assert(x.last() == hex_char(a % 16));
        assert(y.last() == hex_char(b % 16));
        lemma_hex_injective(a / 16, b / 16, shorter);
    }
}

/// How many digits are written.
proof fn lemma_hex_length(id: nat, n: nat)
    ensures
        hex_text(id, n).len() == n,
    decreases n,
{
    if n > 0 {
        lemma_hex_length(id / 16, (n - 1) as nat);
    }
}

/// Two profiles never share a file.
pub proof fn profiles_have_files_of_their_own(a: u128, b: u128)
    requires
        layout_file(a as nat) == layout_file(b as nat),
    ensures
        a == b,
{
    let x = hex_text(a as nat, 32);
    let y = hex_text(b as nat, 32);
    lemma_hex_length(a as nat, 32);
    lemma_hex_length(b as nat, 32);
    let f = layout_file(a as nat);
    let g = layout_file(b as nat);
    assert(x =~= f.subrange(0, 8) + f.subrange(9, 13) + f.subrange(14, 18) + f.subrange(19, 23)
        + f.subrange(24, 36));
    assert(y =~= g.subrange(0, 8) + g.subrange(9, 13) + g.subrange(14, 18) + g.subrange(19, 23)
        + g.subrange(24, 36));
    assert(hex_span(32) == u128::MAX + 1) by {
        reveal_with_fuel(hex_span, 33);
    }
    lemma_hex_injective(a as nat, b as nat, 32);
}

} // verus!
