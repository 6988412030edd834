//! URL templates with `{placeholder}` holes: reading one, filling one, and
//! taking a filled one apart again.

use vstd::prelude::*;

use crate::ordered::{map_texts, TextMap};
use crate::text::{
    append_decimal, begins, begins_with, chars_of, contains_text, decimal, find, find_is_first,
    find_text, first_at, first_is_found, occurs, occurs_at, same_text, texts,
};

verus! {

/// A hole of a template, and the text between it and the hole before.
#[verifier::ext_equal]
pub ghost struct HoleText {
    pub before: Seq<char>,
    pub name: Seq<char>,
}

/// A template: its holes in order, and the text after the last of them.
#[verifier::ext_equal]
pub ghost struct TemplateText {
    pub holes: Seq<HoleText>,
    pub tail: Seq<char>,
}

/// Where the first `c` of `s` stands, or the length of `s` where it has none.
pub open spec fn first_char(s: Seq<char>, c: char) -> int
    decreases s.len(),
{
    if s.len() == 0 || s[0] == c {
        0
    } else {
        1 + first_char(s.subrange(1, s.len() as int), c)
    }
}

/// What `first_char` says of the characters.
proof fn lemma_first_char(s: Seq<char>, c: char)
    ensures
        0 <= first_char(s, c) <= s.len(),
        first_char(s, c) < s.len() ==> s[first_char(s, c)] == c,
        forall|i: int| 0 <= i < first_char(s, c) ==> s[i] != c,
    decreases s.len(),
{
    if s.len() > 0 && s[0] != c {
        let rest = s.subrange(1, s.len() as int);
        lemma_first_char(rest, c);
        assert forall|i: int| 0 <= i < first_char(s, c) implies s[i] != c by {
            if i > 0 {
                assert(rest[i - 1] != c);
            }
        }
    }
}

/// How a template reads: a hole runs from a `{` to the next `}` after it, and a
/// `{` that nothing closes is text.
pub open spec fn template_of(s: Seq<char>) -> TemplateText
    decreases s.len(),
    via template_of_shrinks
{
    let open = first_char(s, '{');
    let close = open + first_char(s.subrange(open, s.len() as int), '}');
    if open >= s.len() || close >= s.len() {
        TemplateText { holes: Seq::empty(), tail: s }
    } else {
        let hole = HoleText { before: s.subrange(0, open), name: s.subrange(open + 1, close) };
        let rest = template_of(s.subrange(close + 1, s.len() as int));
        TemplateText { holes: seq![hole] + rest.holes, tail: rest.tail }
    }
}

#[via_fn]
proof fn template_of_shrinks(s: Seq<char>) {
    lemma_first_char(s, '{');
    let open = first_char(s, '{');
    lemma_first_char(s.subrange(open, s.len() as int), '}');
}

/// A hole of a template, and the text between it and the hole before.
#[derive(Debug)]
pub struct Hole {
    pub before: String,
    pub name: String,
}

impl View for Hole {
    type V = HoleText;

    open spec fn view(&self) -> HoleText {
        HoleText { before: self.before@, name: self.name@ }
    }
}

/// A template as it reads.
#[derive(Debug)]
pub struct Template {
    pub holes: Vec<Hole>,
    pub tail: String,
}

/// The holes of a list.
pub open spec fn hole_texts(holes: Seq<Hole>) -> Seq<HoleText> {
    holes.map_values(|h: Hole| h@)
}

impl View for Template {
    type V = TemplateText;

    open spec fn view(&self) -> TemplateText {
        TemplateText { holes: hole_texts(self.holes@), tail: self.tail@ }
    }
}

/// The first place at or after `from` where `c` stands, or the end.
fn char_from(chars: &Vec<char>, from: usize, c: char) -> (r: usize)
    requires
        from <= chars.len(),
    ensures
        from <= r <= chars.len(),
        r - from == first_char(chars@.subrange(from as int, chars@.len() as int), c),
{
    let mut at: usize = from;
    while at < chars.len() && chars[at] != c
        invariant
            from <= at <= chars.len(),
            first_char(chars@.subrange(from as int, chars@.len() as int), c) == at - from + first_char(
                chars@.subrange(at as int, chars@.len() as int),
                c,
            ),
        decreases chars.len() - at,
    {
        let ghost rest = chars@.subrange(at as int, chars@.len() as int);
        assert(rest.subrange(1, rest.len() as int) =~= chars@.subrange(at + 1, chars@.len() as int));
        at = at + 1;
    }
    at
}

/// Reads a template.
pub fn read_template(s: &str) -> (r: Template)
    ensures
        r@ == template_of(s@),
{
    let chars = chars_of(s);
    let total: usize = chars.len();
    let mut holes: Vec<Hole> = Vec::new();
    let mut from: usize = 0;
    assert(s@.subrange(0, total as int) =~= s@);
    assert(hole_texts(holes@) + template_of(s@).holes =~= template_of(s@).holes);
    loop
        invariant
            chars@ == s@,
            total == chars.len(),
            from <= total,
            template_of(s@).holes == hole_texts(holes@) + template_of(
                s@.subrange(from as int, total as int),
            ).holes,
            template_of(s@).tail == template_of(s@.subrange(from as int, total as int)).tail,
        decreases total - from,
    {
        let ghost rest = s@.subrange(from as int, total as int);
        let open: usize = char_from(&chars, from, '{');
        let close: usize = char_from(&chars, open, '}');
        assert(rest.subrange(open - from, rest.len() as int) =~= s@.subrange(
            open as int,
            total as int,
        ));
        if close >= total {
            let tail = s.substring_char(from, total).to_owned();
            assert(template_of(rest) == (TemplateText { holes: Seq::empty(), tail: rest }));
            let r = Template { holes, tail };
            assert(r@.holes =~= template_of(s@).holes);
            return r;
        }
        proof {
            lemma_first_char(s@.subrange(open as int, total as int), '}');
            lemma_first_char(rest, '{');
            assert(s@[open as int] == '{');
            assert(close > open);
        }
        let hole = Hole {
            before: s.substring_char(from, open).to_owned(),
            name: s.substring_char(open + 1, close).to_owned(),
        };
        let ghost earlier = hole_texts(holes@);
        let ghost after = s@.subrange(close + 1, total as int);
        proof {
            assert(rest.subrange(close - from + 1, rest.len() as int) =~= after);
            assert(rest.subrange(0, open - from) =~= hole.before@);
            assert(rest.subrange(open - from + 1, close - from) =~= hole.name@);
            assert(template_of(rest).holes =~= seq![hole@] + template_of(after).holes);
        }
        holes.push(hole);
        assert(hole_texts(holes@) =~= earlier.push(hole@));
        assert(earlier + (seq![hole@] + template_of(after).holes) =~= hole_texts(holes@)
            + template_of(after).holes);
        from = close + 1;
    }
}

/// The name of a hole, in its braces.
pub open spec fn braced(name: Seq<char>) -> Seq<char> {
    seq!['{'] + name + seq!['}']
}

/// What a hole shows: its value, or itself where nothing fills it.
pub open spec fn hole_value(name: Seq<char>, values: Map<Seq<char>, Seq<char>>) -> Seq<char> {
    if values.dom().contains(name) {
        values[name]
    } else {
        braced(name)
    }
}

/// Every hole with the text before it, one after the other.
pub open spec fn fill_holes(holes: Seq<HoleText>, values: Map<Seq<char>, Seq<char>>) -> Seq<char>
    decreases holes.len(),
{
    if holes.len() == 0 {
        Seq::empty()
    } else {
        fill_holes(holes.drop_last(), values) + holes.last().before + hole_value(
            holes.last().name,
            values,
        )
    }
}

/// A template with its holes filled.
pub open spec fn filled(template: TemplateText, values: Map<Seq<char>, Seq<char>>) -> Seq<char> {
    fill_holes(template.holes, values) + template.tail
}

/// Fills `{placeholder}` holes in a driver's URL template.
///
/// An unknown placeholder is left as it stands rather than blanked: leaving
/// `{warehouse}` visible in the preview says that nothing fills it, whereas
/// dropping it would produce a URL that fails at the driver with no clue where
/// the gap came from. An unbalanced brace is part of the URL, not a hole.
pub fn substitute(template: &str, values: &TextMap<String>) -> (r: String)
    ensures
        r@ == filled(template_of(template@), map_texts(values@)),
{
    let parts = read_template(template);
    let mut out = String::new();
    let mut i: usize = 0;
    while i < parts.holes.len()
        invariant
            i <= parts.holes.len(),
            out@ == fill_holes(parts@.holes.take(i as int), map_texts(values@)),
        decreases parts.holes.len() - i,
    {
        let ghost next = parts@.holes.take(i + 1);
        assert(next.drop_last() =~= parts@.holes.take(i as int));
        let hole = &parts.holes[i];
        assert(next.last() == hole@);
        out.append(hole.before.as_str());
        match values.get(hole.name.as_str()) {
            Some(value) => {
                out.append(value.as_str());
            },
            None => {
                let ghost so_far = out@;
                out.append("{");
                out.append(hole.name.as_str());
                out.append("}");
                proof {
                    reveal_strlit("{");
                    reveal_strlit("}");
                    assert("{"@ =~= seq!['{']);
                    assert("}"@ =~= seq!['}']);
                    assert(out@ =~= so_far + braced(hole.name@));
                }
            },
        }
        i = i + 1;
    }
    assert(parts@.holes.take(parts.holes.len() as int) =~= parts@.holes);
    out.append(parts.tail.as_str());
    out
}

/// The names of the holes, each once, where it first appears. A hole without a
/// name is not counted.
pub open spec fn hole_names(holes: Seq<HoleText>) -> Seq<Seq<char>>
    decreases holes.len(),
{
    if holes.len() == 0 {
        Seq::empty()
    } else {
        let earlier = hole_names(holes.drop_last());
        let name = holes.last().name;
        if name.len() == 0 || earlier.contains(name) {
            earlier
        } else {
            earlier.push(name)
        }
    }
}

/// The placeholders a template actually uses, in the order they appear.
pub fn placeholders_of(template: &str) -> (r: Vec<String>)
    ensures
        texts(r@) == hole_names(template_of(template@).holes),
{
    let parts = read_template(template);
    let mut found: Vec<String> = Vec::new();
    let mut i: usize = 0;
    assert(texts(found@) =~= Seq::<Seq<char>>::empty());
    while i < parts.holes.len()
        invariant
            i <= parts.holes.len(),
            texts(found@) == hole_names(parts@.holes.take(i as int)),
        decreases parts.holes.len() - i,
    {
        let ghost next = parts@.holes.take(i + 1);
        assert(next.drop_last() =~= parts@.holes.take(i as int));
        assert(next.last() == parts.holes@[i as int]@);
        let name = parts.holes[i].name.as_str();
        if !name.is_empty() && !contains_text(found.as_slice(), name) {
            let ghost earlier = texts(found@);
            found.push(name.to_owned());
            assert(texts(found@) =~= earlier.push(name@));
        }
        i = i + 1;
    }
    assert(parts@.holes.take(parts.holes.len() as int) =~= parts@.holes);
    found
}

/// The placeholders are exactly the named holes, and none is listed twice.
pub proof fn placeholders_are_the_named_holes(holes: Seq<HoleText>)
    ensures
        hole_names(holes).no_duplicates(),
        forall|name: Seq<char>| #[trigger]
            hole_names(holes).contains(name) <==> name.len() > 0 && exists|i: int|
                0 <= i < holes.len() && (#[trigger] holes[i]).name == name,
    decreases holes.len(),
{
    if holes.len() > 0 {
        let before = holes.drop_last();
        let earlier = hole_names(before);
        let last = holes.last().name;
        placeholders_are_the_named_holes(before);
        assert forall|name: Seq<char>| #[trigger]
            hole_names(holes).contains(name) <==> name.len() > 0 && exists|i: int|
                0 <= i < holes.len() && (#[trigger] holes[i]).name == name by {
            if hole_names(holes).contains(name) {
                if earlier.contains(name) {
                    let i = choose|i: int| 0 <= i < before.len() && (#[trigger] before[i]).name == name;
                    assert(holes[i].name == name);
                } else {
                    assert(holes[holes.len() - 1].name == name);
                }
            }
            if name.len() > 0 && exists|i: int| 0 <= i < holes.len() && (#[trigger] holes[i]).name == name {
                let i = choose|i: int| 0 <= i < holes.len() && (#[trigger] holes[i]).name == name;
                if i < before.len() {
                    assert(before[i].name == name);
                    assert(earlier.contains(name));
                }
                if earlier.contains(name) {
                    let k = choose|k: int| 0 <= k < earlier.len() && earlier[k] == name;
                    assert(hole_names(holes)[k] == name);
                } else {
                    assert(name == last);
                    assert(hole_names(holes).last() == name);
                }
            }
        }
    }
}

/// A hole's name and the text that stood in it.
pub type Filling = (Seq<char>, Seq<char>);

/// The fillings of a list.
pub open spec fn fillings(list: Seq<(String, String)>) -> Seq<Filling> {
    list.map_values(|p: (String, String)| (p.0@, p.1@))
}

/// What ends the value of the first hole: the text up to the hole after it, or
/// the tail.
pub open spec fn next_literal(holes: Seq<HoleText>, tail: Seq<char>) -> Seq<char> {
    if holes.len() > 1 {
        holes[1].before
    } else {
        tail
    }
}

/// Where a value that `literal` ends runs to: as far as the first `literal`, and
/// to the end of the text where the literal is empty.
pub open spec fn value_end(rest: Seq<char>, literal: Seq<char>) -> Option<int> {
    if literal.len() == 0 {
        Some(rest.len() as int)
    } else {
        find(rest, literal)
    }
}

/// What stands in each hole of a template where `url` fits it: the text before
/// each hole has to match, each value runs up to the text after it, and nothing
/// but the tail may be left over.
pub open spec fn take_apart(holes: Seq<HoleText>, tail: Seq<char>, url: Seq<char>) -> Option<
    Seq<Filling>,
>
    decreases holes.len(),
{
    if holes.len() == 0 {
        if url == tail {
            Some(Seq::empty())
        } else {
            None
        }
    } else if !begins(url, holes[0].before) {
        None
    } else {
        let rest = url.subrange(holes[0].before.len() as int, url.len() as int);
        match value_end(rest, next_literal(holes, tail)) {
            None => None,
            Some(end) => match take_apart(
                holes.subrange(1, holes.len() as int),
                tail,
                rest.subrange(end, rest.len() as int),
            ) {
                None => None,
                Some(more) => Some(seq![(holes[0].name, rest.subrange(0, end))] + more),
            },
        }
    }
}

/// What stands in each hole of `template` where `url` fits it. A template
/// without a named hole, or with a brace that nothing closes, fits nothing.
pub open spec fn decomposed(template: TemplateText, url: Seq<char>) -> Option<Seq<Filling>> {
    if hole_names(template.holes).len() == 0 || template.tail.contains('{') {
        None
    } else {
        take_apart(template.holes, template.tail, url)
    }
}

/// Takes a URL apart by the template that may have built it: the name of each
/// hole in order, and what stands in it.
pub fn decompose(template: &str, url: &str) -> (r: Option<Vec<(String, String)>>)
    ensures
        match r {
            Some(list) => decomposed(template_of(template@), url@) == Some(fillings(list@)),
            None => decomposed(template_of(template@), url@) is None,
        },
{
    if placeholders_of(template).len() == 0 {
        return None;
    }
    let parts = read_template(template);
    let tail_chars = chars_of(parts.tail.as_str());
    if char_from(&tail_chars, 0, '{') < tail_chars.len() {
        proof {
            let tail = parts.tail@;
            assert(tail.subrange(0, tail.len() as int) =~= tail);
            lemma_first_char(tail, '{');
            assert(tail.contains('{'));
        }
        return None;
    }
    let ghost holes = parts@.holes;
    let ghost tail = parts@.tail;
    proof {
        assert(tail.subrange(0, tail.len() as int) =~= tail);
        lemma_first_char(tail, '{');
        assert(!tail.contains('{'));
    }
    let mut values: Vec<(String, String)> = Vec::new();
    let mut rest = url.to_owned();
    let mut i: usize = 0;
    assert(fillings(values@) =~= Seq::<Filling>::empty());
    assert(holes.subrange(0, holes.len() as int) =~= holes);
    proof {
        let whole = take_apart(holes, tail, url@);
        if whole is Some {
            assert(fillings(values@) + whole.unwrap() =~= whole.unwrap());
        }
    }
    while i < parts.holes.len()
        invariant
            i <= parts.holes.len(),
            holes == parts@.holes,
            tail == parts@.tail,
            match take_apart(holes.subrange(i as int, holes.len() as int), tail, rest@) {
                Some(more) => take_apart(holes, tail, url@) == Some(fillings(values@) + more),
                None => take_apart(holes, tail, url@) is None,
            },
            decomposed(template_of(template@), url@) == take_apart(holes, tail, url@),
        decreases parts.holes.len() - i,
    {
        let ghost left = holes.subrange(i as int, holes.len() as int);
        let hole = &parts.holes[i];
        assert(left[0] == hole@);
        if !begins_with(rest.as_str(), hole.before.as_str()) {
            return None;
        }
        let size: usize = hole.before.as_str().unicode_len();
        let total: usize = rest.as_str().unicode_len();
        let after = rest.as_str().substring_char(size, total);
        let literal = if i + 1 < parts.holes.len() {
            assert(left[1] == parts.holes@[i + 1]@);
            parts.holes[i + 1].before.as_str()
        } else {
            parts.tail.as_str()
        };
        assert(literal@ == next_literal(left, tail));
        let length: usize = after.unicode_len();
        let end: usize = if literal.is_empty() {
            length
        } else {
            match find_text(after, literal) {
                Some(at) => at,
                None => {
                    return None;
                },
            }
        };
        let value = after.substring_char(0, end).to_owned();
        let next = after.substring_char(end, length).to_owned();
        let ghost earlier = fillings(values@);
        values.push((hole.name.clone(), value));
        proof {
            let one = (hole.name@, value@);
            assert(fillings(values@) =~= earlier.push(one));
            assert(left.subrange(1, left.len() as int) =~= holes.subrange(
                i + 1,
                holes.len() as int,
            ));
            let more = take_apart(holes.subrange(i + 1, holes.len() as int), tail, next@);
            if more is Some {
                assert(earlier + (seq![one] + more.unwrap()) =~= fillings(values@) + more.unwrap());
            }
        }
        rest = next;
        i = i + 1;
    }
    assert(holes.subrange(holes.len() as int, holes.len() as int) =~= Seq::<HoleText>::empty());
    if same_text(rest.as_str(), parts.tail.as_str()) {
        assert(fillings(values@) + Seq::<Filling>::empty() =~= fillings(values@));
        Some(values)
    } else {
        None
    }
}

/// The URL that a template gives where each hole has a filling of its own.
pub open spec fn assembled(holes: Seq<HoleText>, list: Seq<Filling>, tail: Seq<char>) -> Seq<char>
    decreases holes.len(),
{
    if holes.len() == 0 {
        tail
    } else {
        holes[0].before + list[0].1 + assembled(
            holes.subrange(1, holes.len() as int),
            list.subrange(1, list.len() as int),
            tail,
        )
    }
}

/// What comes out of a URL goes back into it: the fillings carry the names of
/// the holes, in order, and standing in them they spell the URL.
pub proof fn decompose_loses_nothing(holes: Seq<HoleText>, tail: Seq<char>, url: Seq<char>)
    requires
        take_apart(holes, tail, url) is Some,
    ensures
        ({
            let list = take_apart(holes, tail, url).unwrap();
            &&& list.len() == holes.len()
            &&& forall|i: int| 0 <= i < holes.len() ==> (#[trigger] list[i]).0 == holes[i].name
            &&& assembled(holes, list, tail) == url
        }),
    decreases holes.len(),
{
    if holes.len() > 0 {
        let list = take_apart(holes, tail, url).unwrap();
        let before = holes[0].before;
        let rest = url.subrange(before.len() as int, url.len() as int);
        let literal = next_literal(holes, tail);
        find_is_first(rest, literal);
        let end = value_end(rest, literal).unwrap();
        let others = holes.subrange(1, holes.len() as int);
        let after = rest.subrange(end, rest.len() as int);
        decompose_loses_nothing(others, tail, after);
        let more = take_apart(others, tail, after).unwrap();
        assert(list =~= seq![(holes[0].name, rest.subrange(0, end))] + more);
        assert(list.subrange(1, list.len() as int) =~= more);
        assert(url.subrange(0, before.len() as int) == before);
        assert(before + rest.subrange(0, end) + after =~= url);
        assert forall|i: int| 0 <= i < holes.len() implies (#[trigger] list[i]).0 == holes[i].name by {
            if i > 0 {
                assert(list[i] == more[i - 1]);
                assert(others[i - 1] == holes[i]);
            }
        }
    }
}

/// Filling the holes one by one from the front gives what filling them all does.
proof fn lemma_fill_front(holes: Seq<HoleText>, values: Map<Seq<char>, Seq<char>>)
    requires
        holes.len() > 0,
    ensures
        fill_holes(holes, values) == holes[0].before + hole_value(holes[0].name, values) + fill_holes(
            holes.subrange(1, holes.len() as int),
            values,
        ),
    decreases holes.len(),
{
    let rest = holes.subrange(1, holes.len() as int);
    if holes.len() == 1 {
        assert(holes.drop_last() =~= Seq::<HoleText>::empty());
        assert(fill_holes(holes.drop_last(), values) =~= Seq::<char>::empty());
        assert(rest =~= Seq::<HoleText>::empty());
        assert(fill_holes(holes, values) =~= holes[0].before + hole_value(holes[0].name, values)
            + Seq::<char>::empty());
    } else {
        let shorter = holes.drop_last();
        lemma_fill_front(shorter, values);
        assert(shorter.subrange(1, shorter.len() as int) =~= rest.drop_last());
        assert(rest.last() == holes.last());
        assert(fill_holes(holes, values) =~= holes[0].before + hole_value(holes[0].name, values)
            + fill_holes(rest, values));
    }
}

/// A template filled with the fillings themselves spells the assembled URL.
proof fn lemma_assembled_is_filled(
    holes: Seq<HoleText>,
    list: Seq<Filling>,
    tail: Seq<char>,
    values: Map<Seq<char>, Seq<char>>,
)
    requires
        list.len() == holes.len(),
        forall|i: int|
            0 <= i < holes.len() ==> hole_value((#[trigger] holes[i]).name, values) == list[i].1,
    ensures
        fill_holes(holes, values) + tail == assembled(holes, list, tail),
    decreases holes.len(),
{
    if holes.len() == 0 {
        assert(fill_holes(holes, values) + tail =~= tail);
    } else {
        let others = holes.subrange(1, holes.len() as int);
        let more = list.subrange(1, list.len() as int);
        assert forall|i: int| 0 <= i < others.len() implies hole_value(
            (#[trigger] others[i]).name,
            values,
        ) == more[i].1 by {
            assert(others[i] == holes[i + 1]);
        }
        lemma_assembled_is_filled(others, more, tail, values);
        lemma_fill_front(holes, values);
        assert(hole_value(holes[0].name, values) == list[0].1);
        assert(fill_holes(holes, values) + tail =~= holes[0].before + list[0].1 + (fill_holes(
            others,
            values,
        ) + tail));
    }
}

/// Taking a URL apart and putting it back is the identity, as long as no name
/// came out with two different values: then one map cannot hold them both.
pub proof fn decompose_then_substitute(
    template: TemplateText,
    url: Seq<char>,
    values: Map<Seq<char>, Seq<char>>,
)
    requires
        decomposed(template, url) is Some,
        ({
            let list = decomposed(template, url).unwrap();
            forall|i: int|
                0 <= i < list.len() ==> values.dom().contains((#[trigger] list[i]).0)
                    && values[list[i].0] == list[i].1
        }),
    ensures
        filled(template, values) == url,
{
    let list = decomposed(template, url).unwrap();
    decompose_loses_nothing(template.holes, template.tail, url);
    assert forall|i: int| 0 <= i < template.holes.len() implies hole_value(
        (#[trigger] template.holes[i]).name,
        values,
    ) == list[i].1 by {
        assert(list[i].0 == template.holes[i].name);
    }
    lemma_assembled_is_filled(template.holes, list, template.tail, values);
}

/// What stands in each hole once a template is filled.
pub open spec fn fillings_of(holes: Seq<HoleText>, values: Map<Seq<char>, Seq<char>>) -> Seq<
    Filling,
> {
    Seq::new(holes.len(), |k: int| (holes[k].name, hole_value(holes[k].name, values)))
}

/// Whether the value in each hole ends where the text after the hole is first
/// found: that text stands neither in the value nor across its end, and where it
/// is empty nothing comes after the value.
pub open spec fn values_end(
    holes: Seq<HoleText>,
    tail: Seq<char>,
    values: Map<Seq<char>, Seq<char>>,
) -> bool
    decreases holes.len(),
{
    if holes.len() == 0 {
        true
    } else {
        let value = hole_value(holes[0].name, values);
        let others = holes.subrange(1, holes.len() as int);
        &&& value_end(value + (fill_holes(others, values) + tail), next_literal(holes, tail)) == Some(
            value.len() as int,
        )
        &&& values_end(others, tail, values)
    }
}

/// Taking a filled template apart gives what was filled in, exactly where each
/// value ends where the text after its hole is first found.
proof fn lemma_read_back(
    holes: Seq<HoleText>,
    tail: Seq<char>,
    values: Map<Seq<char>, Seq<char>>,
)
    ensures
        take_apart(holes, tail, fill_holes(holes, values) + tail) == Some(
            fillings_of(holes, values),
        ) <==> values_end(holes, tail, values),
    decreases holes.len(),
{
    let url = fill_holes(holes, values) + tail;
    let wanted = fillings_of(holes, values);
    if holes.len() == 0 {
        assert(url =~= tail);
        assert(wanted =~= Seq::<Filling>::empty());
    } else {
        let before = holes[0].before;
        let value = hole_value(holes[0].name, values);
        let others = holes.subrange(1, holes.len() as int);
        let after = fill_holes(others, values) + tail;
        lemma_fill_front(holes, values);
        lemma_read_back(others, tail, values);
        assert(url =~= before + (value + after));
        assert(url.subrange(0, before.len() as int) =~= before);
        let rest = url.subrange(before.len() as int, url.len() as int);
        assert(rest =~= value + after);
        let literal = next_literal(holes, tail);
        find_is_first(rest, literal);
        let more = fillings_of(others, values);
        assert(wanted =~= seq![(holes[0].name, value)] + more);
        match value_end(rest, literal) {
            Some(end) => {
                let head = rest.subrange(0, end);
                assert(head.len() == end);
                let left = rest.subrange(end, rest.len() as int);
                if end == value.len() {
                    assert(head =~= value);
                    assert(left =~= after);
                    match take_apart(others, tail, left) {
                        Some(got) => {
                            let whole = seq![(holes[0].name, head)] + got;
                            assert(whole.subrange(1, whole.len() as int) =~= got);
                            assert(wanted.subrange(1, wanted.len() as int) =~= more);
                        },
                        None => {},
                    }
                } else {
                    match take_apart(others, tail, left) {
                        Some(got) => {
                            let whole = seq![(holes[0].name, head)] + got;
                            assert(whole[0].1.len() == end);
                            assert(wanted[0].1.len() == value.len());
                        },
                        None => {},
                    }
                }
            },
            None => {},
        }
    }
}

/// Filling a template and taking the URL apart gives back what was filled in: of
/// a template that can be taken apart at all, exactly where each value ends where
/// the text after its hole is first found.
pub proof fn substitute_then_decompose(template: TemplateText, values: Map<Seq<char>, Seq<char>>)
    requires
        hole_names(template.holes).len() > 0,
        !template.tail.contains('{'),
    ensures
        decomposed(template, filled(template, values)) == Some(fillings_of(template.holes, values))
            <==> values_end(template.holes, template.tail, values),
{
    lemma_read_back(template.holes, template.tail, values);
}

/// Whether something stands between each two holes, and no value holds the first
/// character of the text after its hole.
pub open spec fn values_are_plain(
    holes: Seq<HoleText>,
    tail: Seq<char>,
    values: Map<Seq<char>, Seq<char>>,
) -> bool {
    &&& forall|k: int| 0 < k < holes.len() ==> (#[trigger] holes[k]).before.len() > 0
    &&& forall|k: int|
        0 <= k < holes.len() ==> {
            let literal = if k + 1 < holes.len() {
                holes[k + 1].before
            } else {
                tail
            };
            literal.len() > 0 ==> !hole_value((#[trigger] holes[k]).name, values).contains(literal[0])
        }
}

/// A value without the first character of the text after its hole ends where that
/// text is first found.
proof fn lemma_plain_values_end(
    holes: Seq<HoleText>,
    tail: Seq<char>,
    values: Map<Seq<char>, Seq<char>>,
)
    requires
        values_are_plain(holes, tail, values),
    ensures
        values_end(holes, tail, values),
    decreases holes.len(),
{
    if holes.len() > 0 {
        let value = hole_value(holes[0].name, values);
        let others = holes.subrange(1, holes.len() as int);
        let after = fill_holes(others, values) + tail;
        let rest = value + after;
        let literal = next_literal(holes, tail);
        assert(values_are_plain(others, tail, values)) by {
            assert forall|k: int| 0 < k < others.len() implies (#[trigger] others[k]).before.len() > 0 by {
                assert(others[k] == holes[k + 1]);
            }
            assert forall|k: int| 0 <= k < others.len() implies {
                let next = if k + 1 < others.len() {
                    others[k + 1].before
                } else {
                    tail
                };
                next.len() > 0 ==> !hole_value((#[trigger] others[k]).name, values).contains(next[0])
            } by {
                assert(others[k] == holes[k + 1]);
                if k + 1 < others.len() {
                    assert(others[k + 1] == holes[k + 2]);
                }
            }
        }
        lemma_plain_values_end(others, tail, values);
        assert(literal.len() > 0 ==> !value.contains(literal[0]));
        if others.len() > 0 {
            assert(others[0] == holes[1]);
            lemma_fill_front(others, values);
            assert(after.subrange(0, literal.len() as int) =~= literal);
        } else {
            assert(fill_holes(others, values) =~= Seq::<char>::empty());
            assert(after =~= tail);
            assert(after.subrange(0, literal.len() as int) =~= literal);
        }
        if literal.len() > 0 {
            let at = value.len() as int;
            assert(rest.subrange(at, at + literal.len()) =~= literal);
            assert forall|k: int| 0 <= k < at implies !occurs_at(rest, literal, k) by {
                if occurs_at(rest, literal, k) {
                    assert(rest.subrange(k, k + literal.len())[0] == literal[0]);
                    assert(value[k] == literal[0]);
                }
            }
            first_is_found(rest, literal, at);
        } else {
            assert(rest =~= value);
        }
    }
}

/// Values that do not hold the first character of the text after their holes are
/// read back out of the URL they were filled into.
pub proof fn plain_values_are_read_back(template: TemplateText, values: Map<Seq<char>, Seq<char>>)
    requires
        hole_names(template.holes).len() > 0,
        !template.tail.contains('{'),
        values_are_plain(template.holes, template.tail, values),
    ensures
        decomposed(template, filled(template, values)) == Some(
            fillings_of(template.holes, values),
        ),
{
    lemma_plain_values_end(template.holes, template.tail, values);
    substitute_then_decompose(template, values);
}

/// A template without holes is its own URL, whatever the values.
pub proof fn substitute_without_holes(template: Seq<char>, values: Map<Seq<char>, Seq<char>>)
    requires
        template_of(template).holes.len() == 0,
    ensures
        filled(template_of(template), values) == template,
{
    assert(filled(template_of(template), values) =~= template_of(template).tail);
}

/// Where the host and port of a URL end, from where they begin.
pub open spec fn authority_length(s: Seq<char>) -> int
    decreases s.len(),
{
    if s.len() == 0 || s[0] == '/' || s[0] == ';' || s[0] == '?' {
        0
    } else {
        1 + authority_length(s.subrange(1, s.len() as int))
    }
}

/// A URL with its host and port replaced: what stands between the first `//` and
/// the next `/`, `;`, `?` or end. A URL without `//` is left alone.
pub open spec fn redirected(url: Seq<char>, host: Seq<char>, port: nat) -> Seq<char> {
    match find(url, seq!['/', '/']) {
        None => url,
        Some(at) => {
            let start = at + 2;
            let end = start + authority_length(url.subrange(start, url.len() as int));
            url.subrange(0, start) + host + seq![':'] + decimal(port) + url.subrange(
                end,
                url.len() as int,
            )
        },
    }
}

/// What `authority_length` says of the characters.
proof fn lemma_authority(s: Seq<char>)
    ensures
        0 <= authority_length(s) <= s.len(),
        authority_length(s) < s.len() ==> s[authority_length(s)] == '/' || s[authority_length(s)]
            == ';' || s[authority_length(s)] == '?',
        forall|i: int|
            0 <= i < authority_length(s) ==> s[i] != '/' && s[i] != ';' && s[i] != '?',
    decreases s.len(),
{
    if s.len() > 0 && s[0] != '/' && s[0] != ';' && s[0] != '?' {
        let rest = s.subrange(1, s.len() as int);
        lemma_authority(rest);
        assert forall|i: int| 0 <= i < authority_length(s) implies s[i] != '/' && s[i] != ';'
            && s[i] != '?' by {
            if i > 0 {
                assert(rest[i - 1] == s[i]);
            }
        }
    }
}

/// Rewrites the host and port of an already-assembled JDBC URL.
///
/// What a tunnel needs: the profile's URL names the database as it is called
/// inside the remote network, and the driver has to be pointed at the local port
/// instead. Only the authority is touched, so a URL's grammar survives whatever
/// shape it has.
pub fn redirect_authority(url: &str, host: &str, port: u16) -> (r: String)
    ensures
        r@ == redirected(url@, host@, port as nat),
{
    proof {
        reveal_strlit("//");
        reveal_strlit(":");
        assert("//"@ =~= seq!['/', '/']);
        assert(":"@ =~= seq![':']);
    }
    match find_text(url, "//") {
        None => url.to_owned(),
        Some(at) => {
            let chars = chars_of(url);
            assert(occurs_at(url@, "//"@, at as int));
            let total: usize = chars.len();
            assert(at + 2 <= total);
            let start: usize = at + 2;
            let mut end: usize = start;
            while end < chars.len() && chars[end] != '/' && chars[end] != ';' && chars[end] != '?'
                invariant
                    start <= end <= chars.len(),
                    chars@ == url@,
                    authority_length(url@.subrange(start as int, url@.len() as int)) == end - start
                        + authority_length(url@.subrange(end as int, url@.len() as int)),
                decreases chars.len() - end,
            {
                let ghost rest = url@.subrange(end as int, url@.len() as int);
                assert(rest.subrange(1, rest.len() as int) =~= url@.subrange(
                    end + 1,
                    url@.len() as int,
                ));
                end = end + 1;
            }
            let mut out = url.substring_char(0, start).to_owned();
            out.append(host);
            out.append(":");
            append_decimal(&mut out, port as u128);
            out.append(url.substring_char(end, total));
            out
        },
    }
}

/// The authority of a text that spells one, followed by something else.
proof fn lemma_authority_of(host: Seq<char>, rest: Seq<char>)
    requires
        forall|i: int| 0 <= i < host.len() ==> host[i] != '/' && host[i] != ';' && host[i] != '?',
        rest.len() > 0 ==> rest[0] == '/' || rest[0] == ';' || rest[0] == '?',
    ensures
        authority_length(host + rest) == host.len(),
    decreases host.len(),
{
    let all = host + rest;
    if host.len() > 0 {
        let shorter = host.subrange(1, host.len() as int);
        lemma_authority_of(shorter, rest);
        assert(all.subrange(1, all.len() as int) =~= shorter + rest);
        assert(all[0] == host[0]);
    } else {
        assert(all =~= rest);
    }
}

/// Digits do not end an authority.
proof fn lemma_decimal_is_plain(n: nat)
    ensures
        forall|i: int|
            0 <= i < decimal(n).len() ==> decimal(n)[i] != '/' && decimal(n)[i] != ';' && decimal(
                n,
            )[i] != '?',
    decreases n,
{
    if n >= 10 {
        lemma_decimal_is_plain(n / 10);
        let shorter = decimal(n / 10);
        assert forall|i: int| 0 <= i < decimal(n).len() implies decimal(n)[i] != '/' && decimal(n)[i]
            != ';' && decimal(n)[i] != '?' by {
            if i < shorter.len() {
                assert(decimal(n)[i] == shorter[i]);
            }
        }
    }
}

/// Redirecting moves the authority and nothing else: redirecting a URL that was
/// redirected before lands where redirecting the first one does.
pub proof fn redirecting_replaces_only_the_authority(
    url: Seq<char>,
    first: Seq<char>,
    first_port: nat,
    host: Seq<char>,
    port: nat,
)
    requires
        forall|i: int| 0 <= i < first.len() ==> first[i] != '/' && first[i] != ';' && first[i] != '?',
    ensures
        redirected(redirected(url, first, first_port), host, port) == redirected(url, host, port),
{
    let slashes = seq!['/', '/'];
    find_is_first(url, slashes);
    if find(url, slashes) is Some {
        let at = find(url, slashes).unwrap();
        let start = at + 2;
        let behind = url.subrange(start, url.len() as int);
        let end = start + authority_length(behind);
        lemma_authority(behind);
        lemma_decimal_is_plain(first_port);
        let moved = redirected(url, first, first_port);
        let authority = first + seq![':'] + decimal(first_port);
        let rest = url.subrange(end, url.len() as int);
        assert(moved =~= url.subrange(0, start) + authority + rest);
        assert(moved.subrange(at, at + 2) =~= url.subrange(at, at + 2));
        assert forall|k: int| 0 <= k < at implies !occurs_at(moved, slashes, k) by {
            assert(!occurs_at(url, slashes, k));
            assert(moved.subrange(k, k + 2) =~= url.subrange(k, k + 2));
        }
        first_is_found(moved, slashes, at);
        assert(rest.len() > 0 ==> rest[0] == behind[end - start]);
        lemma_authority_of(authority, rest);
        assert(moved.subrange(start, moved.len() as int) =~= authority + rest);
        assert(moved.subrange(0, start) =~= url.subrange(0, start));
        assert(moved.subrange(start + authority.len(), moved.len() as int) =~= rest);
    }
}

/// Redirecting a URL puts the host and the port in place of what stands between
/// the first `//` and the end of the authority, and leaves the rest of the URL as
/// it is, to the last character. A URL without `//` has no server in it to
/// redirect.
#[verifier::spinoff_prover]
#[verifier::rlimit(60)]
pub proof fn redirecting_keeps_the_rest(
    prefix: Seq<char>,
    authority: Seq<char>,
    rest: Seq<char>,
    host: Seq<char>,
    port: nat,
)
    requires
        !occurs(prefix + seq!['/'], seq!['/', '/']),
        forall|i: int|
            0 <= i < authority.len() ==> #[trigger] authority[i] != '/' && authority[i] != ';'
                && authority[i] != '?',
        rest.len() > 0 ==> rest[0] == '/' || rest[0] == ';' || rest[0] == '?',
    ensures
        redirected(prefix + seq!['/', '/'] + authority + rest, host, port) == prefix + seq!['/', '/']
            + host + seq![':'] + decimal(port) + rest,
        authority == host + seq![':'] + decimal(port) ==> redirected(
            prefix + seq!['/', '/'] + authority + rest,
            host,
            port,
        ) == prefix + seq!['/', '/'] + authority + rest,
        redirected(prefix, host, port) == prefix,
{
    lemma_first_slashes(prefix, authority + rest);
    lemma_redirected_at(prefix, authority, rest, host, port);
    lemma_same_authority(prefix, authority, rest, host, port);
    lemma_no_slashes(prefix, host, port);
}

/// The parts of a URL, put together one by one.
#[verifier::spinoff_prover]
proof fn lemma_same_authority(
    prefix: Seq<char>,
    authority: Seq<char>,
    rest: Seq<char>,
    host: Seq<char>,
    port: nat,
)
    ensures
        prefix + seq!['/', '/'] + (authority + rest) == prefix + seq!['/', '/'] + authority + rest,
        authority == host + seq![':'] + decimal(port) ==> prefix + seq!['/', '/'] + host + seq![':']
            + decimal(port) + rest == prefix + seq!['/', '/'] + authority + rest,
{
    let slashes = seq!['/', '/'];
    let digits = decimal(port);
    assert(prefix + slashes + (authority + rest) =~= prefix + slashes + authority + rest);
    assert(prefix + slashes + host + seq![':'] + digits + rest =~= prefix + slashes + (host + seq![
        ':',
    ] + digits) + rest);
}

/// A URL without slashes is left as it is.
#[verifier::spinoff_prover]
proof fn lemma_no_slashes(prefix: Seq<char>, host: Seq<char>, port: nat)
    requires
        !occurs(prefix + seq!['/'], seq!['/', '/']),
    ensures
        redirected(prefix, host, port) == prefix,
{
    let slashes = seq!['/', '/'];
    let opened = prefix + seq!['/'];
    find_is_first(prefix, slashes);
    if find(prefix, slashes) is Some {
        let k = find(prefix, slashes).unwrap();
        assert(opened.subrange(k, k + 2) =~= prefix.subrange(k, k + 2));
        assert(occurs_at(opened, slashes, k));
    }
}

/// The first slashes of a URL stand behind what holds none.
proof fn lemma_first_slashes(prefix: Seq<char>, behind: Seq<char>)
    requires
        !occurs(prefix + seq!['/'], seq!['/', '/']),
    ensures
        find(prefix + seq!['/', '/'] + behind, seq!['/', '/']) == Some(prefix.len() as int),
{
    let slashes = seq!['/', '/'];
    let url = prefix + slashes + behind;
    let at = prefix.len() as int;
    let opened = prefix + seq!['/'];
    assert(url.subrange(at, at + 2) =~= slashes);
    assert forall|k: int| 0 <= k < at implies !occurs_at(url, slashes, k) by {
        assert(!occurs_at(opened, slashes, k));
        assert(url.subrange(k, k + 2) =~= opened.subrange(k, k + 2));
    }
    first_is_found(url, slashes, at);
}

/// A URL is redirected behind its first slashes.
#[verifier::spinoff_prover]
#[verifier::rlimit(60)]
proof fn lemma_redirected_at(
    prefix: Seq<char>,
    authority: Seq<char>,
    rest: Seq<char>,
    host: Seq<char>,
    port: nat,
)
    requires
        find(prefix + seq!['/', '/'] + (authority + rest), seq!['/', '/']) == Some(
            prefix.len() as int,
        ),
        forall|i: int|
            0 <= i < authority.len() ==> #[trigger] authority[i] != '/' && authority[i] != ';'
                && authority[i] != '?',
        rest.len() > 0 ==> rest[0] == '/' || rest[0] == ';' || rest[0] == '?',
    ensures
        redirected(prefix + seq!['/', '/'] + (authority + rest), host, port) == prefix
            + seq!['/', '/'] + host + seq![':'] + decimal(port) + rest,
{
    let slashes = seq!['/', '/'];
    let url = prefix + slashes + (authority + rest);
    let start = prefix.len() as int + 2;
    let end = start + authority.len();
    lemma_authority_of(authority, rest);
    assert(url.subrange(start, url.len() as int) == authority + rest) by {
        assert(url.subrange(start, url.len() as int) =~= authority + rest);
    }
    assert(url.subrange(0, start) == prefix + slashes) by {
        assert(url.subrange(0, start) =~= prefix + slashes);
    }
    assert(url.subrange(end, url.len() as int) == rest) by {
        assert(url.subrange(end, url.len() as int) =~= rest);
    }
    let moved = redirected(url, host, port);
    assert(moved == url.subrange(0, start) + host + seq![':'] + decimal(port) + url.subrange(
        end,
        url.len() as int,
    ));
}

/// A hole is filled where it stands: text without a brace stays, the hole becomes
/// its value, or itself where there is none, and the rest is filled as it would
/// be alone. Text without a hole is left as it is.
pub proof fn a_hole_is_filled_where_it_stands(
    before: Seq<char>,
    name: Seq<char>,
    rest: Seq<char>,
    values: Map<Seq<char>, Seq<char>>,
)
    requires
        !before.contains('{'),
        !name.contains('}'),
    ensures
        filled(template_of(before), values) == before,
        filled(template_of(before + seq!['{'] + name + seq!['}'] + rest), values) == before + (
        if values.dom().contains(name) {
            values[name]
        } else {
            seq!['{'] + name + seq!['}']
        }) + filled(template_of(rest), values),
        template_of(before + seq!['{'] + name + seq!['}'] + rest).holes == seq![
            HoleText { before, name },
        ] + template_of(rest).holes,
{
    let whole = before + seq!['{'] + name + seq!['}'] + rest;
    let open = before.len() as int;
    lemma_first_char_at(whole, '{', open);
    let inner = whole.subrange(open, whole.len() as int);
    assert(inner =~= seq!['{'] + name + seq!['}'] + rest);
    lemma_first_char_at(inner, '}', (name.len() + 1) as int);
    let close = open + name.len() + 1;
    assert(whole.subrange(0, open) =~= before);
    assert(whole.subrange(open + 1, close) =~= name);
    assert(whole.subrange(close + 1, whole.len() as int) =~= rest);
    let t = template_of(whole);
    let r = template_of(rest);
    let hole = HoleText { before, name };
    assert(t.holes =~= seq![hole] + r.holes);
    assert(t.holes.subrange(1, t.holes.len() as int) =~= r.holes);
    lemma_fill_front(t.holes, values);
    assert(filled(t, values) =~= before + hole_value(name, values) + filled(r, values));
    lemma_first_char(before, '{');
    if first_char(before, '{') < before.len() {
        assert(before.contains(before[first_char(before, '{')]));
    }
    assert(template_of(before) =~= TemplateText { holes: Seq::empty(), tail: before });
    assert(filled(template_of(before), values) =~= before);
}

/// The first place a character stands at.
proof fn lemma_first_char_at(s: Seq<char>, c: char, at: int)
    requires
        0 <= at < s.len(),
        s[at] == c,
        forall|i: int| 0 <= i < at ==> s[i] != c,
    ensures
        first_char(s, c) == at,
{
    lemma_first_char(s, c);
}

/// One hole more adds its name behind the others, unless it has none or the name is there
/// already.
pub proof fn a_name_stands_where_it_first_appears(holes: Seq<HoleText>, hole: HoleText)
    ensures
        hole_names(Seq::empty()).len() == 0,
        hole_names(holes.push(hole)) == if hole.name.len() == 0 || hole_names(holes).contains(
            hole.name,
        ) {
            hole_names(holes)
        } else {
            hole_names(holes).push(hole.name)
        },
{
    assert(holes.push(hole).drop_last() =~= holes);
}

/// A brace that is never closed is text, and so is everything behind it.
pub proof fn an_open_brace_is_text(before: Seq<char>, rest: Seq<char>)
    requires
        !before.contains('{'),
        !rest.contains('}'),
    ensures
        template_of(before + seq!['{'] + rest).holes.len() == 0,
        template_of(before + seq!['{'] + rest).tail == before + seq!['{'] + rest,
{
    let s = before + seq!['{'] + rest;
    let at = before.len() as int;
    assert(s[at] == '{');
    assert forall|i: int| 0 <= i < at implies #[trigger] s[i] != '{' by {
        assert(s[i] == before[i]);
        assert(before.contains(before[i]));
    }
    lemma_first_char_at(s, '{', at);
    let behind = s.subrange(at, s.len() as int);
    assert forall|i: int| 0 <= i < behind.len() implies #[trigger] behind[i] != '}' by {
        if i > 0 {
            assert(behind[i] == rest[i - 1]);
            assert(rest.contains(rest[i - 1]));
        }
    }
    lemma_first_char_missing(behind, '}');
}

/// The place of a character that is not there is the end.
proof fn lemma_first_char_missing(s: Seq<char>, c: char)
    requires
        forall|i: int| 0 <= i < s.len() ==> #[trigger] s[i] != c,
    ensures
        first_char(s, c) == s.len(),
    decreases s.len(),
{
    if s.len() > 0 {
        let rest = s.subrange(1, s.len() as int);
        assert forall|i: int| 0 <= i < rest.len() implies #[trigger] rest[i] != c by {
            assert(rest[i] == s[i + 1]);
        }
        lemma_first_char_missing(rest, c);
    }
}

/// A URL is taken apart from the left: the first value is what stands behind the text before
/// its hole, up to where the text behind that hole first stands, or to the end where there
/// is no such text; the other values are those of what is left. Where the text before the
/// hole is missing, or that behind it, the URL is not of the template.
pub proof fn a_value_ends_where_the_next_text_begins(
    hole: HoleText,
    others: Seq<HoleText>,
    tail: Seq<char>,
    value: Seq<char>,
    left: Seq<char>,
    url: Seq<char>,
)
    ensures
        ({
            let holes = seq![hole] + others;
            let literal = if others.len() > 0 {
                others[0].before
            } else {
                tail
            };
            &&& literal.len() == 0 && left.len() == 0 || literal.len() > 0 && first_at(
                value + left,
                literal,
                value.len() as int,
            ) ==> take_apart(holes, tail, hole.before + value + left) == match take_apart(
                others,
                tail,
                left,
            ) {
                Some(more) => Some(seq![(hole.name, value)] + more),
                None => None,
            }
            &&& !begins(url, hole.before) ==> take_apart(holes, tail, url) is None
            &&& literal.len() > 0 && !occurs(value, literal) ==> take_apart(
                holes,
                tail,
                hole.before + value,
            ) is None
        }),
        take_apart(Seq::empty(), tail, url) is Some <==> url == tail,
        take_apart(Seq::empty(), tail, url) matches Some(list) ==> list.len() == 0,
{
    let holes = seq![hole] + others;
    assert(holes[0] == hole);
    assert(holes.subrange(1, holes.len() as int) =~= others);
    if others.len() > 0 {
        assert(holes[1] == others[0]);
    }
    let literal = next_literal(holes, tail);
    let whole = hole.before + value + left;
    assert(whole.subrange(0, hole.before.len() as int) =~= hole.before);
    assert(begins(whole, hole.before));
    let rest = whole.subrange(hole.before.len() as int, whole.len() as int);
    assert(rest =~= value + left);
    if literal.len() == 0 && left.len() == 0 {
        assert(rest.subrange(rest.len() as int, rest.len() as int) =~= left);
        assert(rest.subrange(0, rest.len() as int) =~= value);
    }
    if literal.len() > 0 && first_at(value + left, literal, value.len() as int) {
        first_is_found(value + left, literal, value.len() as int);
        assert(rest.subrange(value.len() as int, rest.len() as int) =~= left);
        assert(rest.subrange(0, value.len() as int) =~= value);
    }
    let short = hole.before + value;
    assert(short.subrange(0, hole.before.len() as int) =~= hole.before);
    assert(short.subrange(hole.before.len() as int, short.len() as int) =~= value);
}

/// A template without a named hole reads nothing, and neither does one that ends in a hole
/// that was never closed; any other reads a URL that can be taken apart.
pub proof fn a_template_reads_what_it_names(template: TemplateText, url: Seq<char>)
    ensures
        hole_names(template.holes).len() == 0 || template.tail.contains('{') ==> decomposed(
            template,
            url,
        ) is None,
        hole_names(template.holes).len() > 0 && !template.tail.contains('{') ==> decomposed(
            template,
            url,
        ) == take_apart(template.holes, template.tail, url),
{
}

/// A template reads as its holes, in order, and the text behind them.
pub proof fn a_template_reads_as_it_is(template: Template, hole: Hole)
    ensures
        template@.holes == hole_texts(template.holes@),
        template@.tail == template.tail@,
        hole@.before == hole.before@,
        hole@.name == hole.name@,
{
}

} // verus!
