//! Text as a sequence of characters: comparing, searching, trimming, joining,
//! and the decimal spelling of numbers.

use vstd::prelude::*;

verus! {

/// The contents of a list of strings.
pub open spec fn texts(list: Seq<String>) -> Seq<Seq<char>> {
    list.map_values(|s: String| s@)
}

/// The content of a string that may be absent.
pub open spec fn maybe_text(value: Option<String>) -> Option<Seq<char>> {
    match value {
        Some(s) => Some(s@),
        None => None,
    }
}

/// The content of a borrowed text that may be absent.
pub open spec fn str_text(value: Option<&str>) -> Option<Seq<char>> {
    match value {
        Some(s) => Some(s@),
        None => None,
    }
}

/// An optional text, borrowed.
pub fn as_text(value: &Option<String>) -> (r: Option<&str>)
    ensures
        str_text(r) == maybe_text(*value),
{
    match value {
        Some(s) => Some(s.as_str()),
        None => None,
    }
}

/// A copy of a list of texts.
pub fn copy_texts(list: &Vec<String>) -> (r: Vec<String>)
    ensures
        r@ == list@,
{
    let mut out: Vec<String> = Vec::new();
    let mut i: usize = 0;
    while i < list.len()
        invariant
            i <= list.len(),
            out@ == list@.take(i as int),
        decreases list.len() - i,
    {
        out.push(list[i].clone());
        assert(list@.take(i + 1) =~= list@.take(i as int).push(list@[i as int]));
        i = i + 1;
    }
    assert(list@.take(list@.len() as int) =~= list@);
    out
}

/// The characters of `s`, indexable.
pub fn chars_of(s: &str) -> (r: Vec<char>)
    ensures
        r@ == s@,
{
    broadcast use vstd::string::axiom_spec_iter;

    let mut out: Vec<char> = Vec::new();
    for c in it: s.chars()
        invariant
            out@ == it.seq().take(it.index()),
            it.seq() == s@,
    {
        out.push(c);
    }
    assert(s@.take(s@.len() as int) =~= s@);
    out
}

/// Whether two texts are the same.
pub fn same_text(a: &str, b: &str) -> (r: bool)
    ensures
        r == (a@ == b@),
{
    let left = chars_of(a);
    let right = chars_of(b);
    if left.len() != right.len() {
        return false;
    }
    let mut i: usize = 0;
    while i < left.len()
        invariant
            i <= left.len(),
            left.len() == right.len(),
            left@ == a@,
            right@ == b@,
            forall|k: int| 0 <= k < i ==> left@[k] == right@[k],
        decreases left.len() - i,
    {
        if left[i] != right[i] {
            return false;
        }
        i = i + 1;
    }
    assert(a@ =~= b@);
    true
}

/// Whether `list` holds a text equal to `wanted`.
pub fn contains_text(list: &[String], wanted: &str) -> (r: bool)
    ensures
        r == texts(list@).contains(wanted@),
{
    let mut i: usize = 0;
    while i < list.len()
        invariant
            i <= list.len(),
            forall|k: int| 0 <= k < i ==> texts(list@)[k] != wanted@,
        decreases list.len() - i,
    {
        if same_text(list[i].as_str(), wanted) {
            assert(texts(list@)[i as int] == wanted@);
            return true;
        }
        i = i + 1;
    }
    false
}

/// Different texts that all stand in `list` are no more than its entries.
pub proof fn distinct_texts_fit(found: Seq<Seq<char>>, list: Seq<Seq<char>>)
    requires
        found.no_duplicates(),
        forall|i: int| 0 <= i < found.len() ==> list.contains(#[trigger] found[i]),
    ensures
        found.len() <= list.len(),
{
    found.unique_seq_to_set();
    list.lemma_cardinality_of_set();
    assert(found.to_set().subset_of(list.to_set())) by {
        assert forall|t: Seq<char>| found.to_set().contains(t) implies list.to_set().contains(t) by {
            let i = choose|i: int| 0 <= i < found.len() && found[i] == t;
            assert(list.contains(found[i]));
        }
    }
    vstd::set_lib::lemma_len_subset(found.to_set(), list.to_set());
}

/// Whether `c` counts as white space: the characters with the Unicode property
/// `White_Space`.
pub open spec fn is_white(c: char) -> bool {
    ||| '\u{9}' <= c <= '\u{d}'
    ||| c == ' '
    ||| c == '\u{85}'
    ||| c == '\u{a0}'
    ||| c == '\u{1680}'
    ||| '\u{2000}' <= c <= '\u{200a}'
    ||| c == '\u{2028}'
    ||| c == '\u{2029}'
    ||| c == '\u{202f}'
    ||| c == '\u{205f}'
    ||| c == '\u{3000}'
}

/// Whether `c` counts as white space.
pub fn white(c: char) -> (r: bool)
    ensures
        r == is_white(c),
{
    ('\u{9}' <= c && c <= '\u{d}') || c == ' ' || c == '\u{85}' || c == '\u{a0}' || c == '\u{1680}'
        || ('\u{2000}' <= c && c <= '\u{200a}') || c == '\u{2028}' || c == '\u{2029}'
        || c == '\u{202f}' || c == '\u{205f}' || c == '\u{3000}'
}

/// `s` without the white space it starts with.
pub open spec fn trim_start(s: Seq<char>) -> Seq<char>
    decreases s.len(),
{
    if s.len() > 0 && is_white(s[0]) {
        trim_start(s.subrange(1, s.len() as int))
    } else {
        s
    }
}

/// `s` without the white space it ends with.
pub open spec fn trim_end(s: Seq<char>) -> Seq<char>
    decreases s.len(),
{
    if s.len() > 0 && is_white(s.last()) {
        trim_end(s.subrange(0, s.len() - 1))
    } else {
        s
    }
}

/// `s` without the white space at either end.
pub open spec fn trim(s: Seq<char>) -> Seq<char> {
    trim_end(trim_start(s))
}

/// Whether nothing is left of `s` once its white space is trimmed.
pub open spec fn is_blank(s: Seq<char>) -> bool {
    trim(s).len() == 0
}

/// `s` without the white space at either end.
pub fn trimmed(s: &str) -> (r: &str)
    ensures
        r@ == trim(s@),
{
    let chars = chars_of(s);
    let total: usize = chars.len();
    let mut from: usize = 0;
    assert(s@.subrange(0, total as int) =~= s@);
    while from < total && white(chars[from])
        invariant
            total == chars.len(),
            chars@ == s@,
            from <= total,
            trim_start(s@.subrange(from as int, total as int)) == trim_start(s@),
        decreases total - from,
    {
        let ghost rest = s@.subrange(from as int, total as int);
        assert(rest.subrange(1, rest.len() as int) =~= s@.subrange(from + 1, total as int));
        from = from + 1;
    }
    let mut to: usize = total;
    while from < to && white(chars[to - 1])
        invariant
            total == chars.len(),
            chars@ == s@,
            from <= to <= total,
            trim_end(s@.subrange(from as int, to as int)) == trim_end(
                s@.subrange(from as int, total as int),
            ),
        decreases to - from,
    {
        let ghost rest = s@.subrange(from as int, to as int);
        assert(rest.subrange(0, rest.len() - 1) =~= s@.subrange(from as int, to - 1));
        to = to - 1;
    }
    s.substring_char(from, to)
}

/// Whether nothing is left of `s` once its white space is trimmed.
pub fn blank(s: &str) -> (r: bool)
    ensures
        r == is_blank(s@),
{
    trimmed(s).is_empty()
}

/// Whether `needle` stands in `s` at character `at`.
pub open spec fn occurs_at(s: Seq<char>, needle: Seq<char>, at: int) -> bool {
    0 <= at && at + needle.len() <= s.len() && s.subrange(at, at + needle.len()) == needle
}

/// Whether `needle` stands anywhere in `s`.
pub open spec fn occurs(s: Seq<char>, needle: Seq<char>) -> bool {
    exists|at: int| occurs_at(s, needle, at)
}

/// Whether `needle` stands in `s` at character `at`, and nowhere before.
pub open spec fn first_at(s: Seq<char>, needle: Seq<char>, at: int) -> bool {
    occurs_at(s, needle, at) && forall|k: int| 0 <= k < at ==> !occurs_at(s, needle, k)
}

/// A text that stands somewhere in `s` stands somewhere first.
proof fn lemma_first_exists(s: Seq<char>, needle: Seq<char>, at: int)
    requires
        occurs_at(s, needle, at),
    ensures
        exists|k: int| first_at(s, needle, k),
    decreases at,
{
    if exists|k: int| 0 <= k < at && occurs_at(s, needle, k) {
        let k = choose|k: int| 0 <= k < at && occurs_at(s, needle, k);
        lemma_first_exists(s, needle, k);
    } else {
        assert(first_at(s, needle, at));
    }
}

/// Where `needle` first stands in `s`, if it does.
pub open spec fn find(s: Seq<char>, needle: Seq<char>) -> Option<int> {
    if occurs(s, needle) {
        Some(choose|at: int| first_at(s, needle, at))
    } else {
        None
    }
}

/// The place `find` answers is the first one.
pub proof fn find_is_first(s: Seq<char>, needle: Seq<char>)
    ensures
        match find(s, needle) {
            Some(at) => first_at(s, needle, at),
            None => !occurs(s, needle),
        },
{
    if occurs(s, needle) {
        let at = choose|at: int| occurs_at(s, needle, at);
        lemma_first_exists(s, needle, at);
    }
}

/// There is only one first place.
pub proof fn first_is_found(s: Seq<char>, needle: Seq<char>, at: int)
    requires
        first_at(s, needle, at),
    ensures
        find(s, needle) == Some(at),
{
    find_is_first(s, needle);
}

/// Where `needle` first stands in `s`, counted in characters.
pub fn find_text(s: &str, needle: &str) -> (r: Option<usize>)
    ensures
        match r {
            Some(at) => find(s@, needle@) == Some(at as int) && first_at(s@, needle@, at as int),
            None => find(s@, needle@) is None,
        },
{
    let text = chars_of(s);
    let wanted = chars_of(needle);
    if wanted.len() > text.len() {
        assert forall|k: int| !occurs_at(s@, needle@, k) by {}
        return None;
    }
    let last: usize = text.len() - wanted.len();
    let mut at: usize = 0;
    loop
        invariant
            text@ == s@,
            wanted@ == needle@,
            wanted.len() <= text.len(),
            last == text.len() - wanted.len(),
            at <= last,
            forall|k: int| 0 <= k < at ==> !occurs_at(s@, needle@, k),
        decreases last - at,
    {
        let mut n: usize = 0;
        while n < wanted.len() && text[at + n] == wanted[n]
            invariant
                n <= wanted.len(),
                at + wanted.len() <= text.len(),
                forall|k: int| 0 <= k < n ==> text@[at + k] == wanted@[k],
            decreases wanted.len() - n,
        {
            n = n + 1;
        }
        if n == wanted.len() {
            assert(s@.subrange(at as int, at + needle@.len()) =~= needle@);
            proof {
                first_is_found(s@, needle@, at as int);
            }
            return Some(at);
        }
        assert(!occurs_at(s@, needle@, at as int)) by {
            if occurs_at(s@, needle@, at as int) {
                assert(s@.subrange(at as int, at + needle@.len())[n as int] == s@[at + n]);
            }
        }
        if at == last {
            assert forall|k: int| !occurs_at(s@, needle@, k) by {}
            return None;
        }
        at = at + 1;
    }
}

/// Whether `needle` stands anywhere in `s`.
pub fn text_occurs(s: &str, needle: &str) -> (r: bool)
    ensures
        r == occurs(s@, needle@),
{
    find_text(s, needle).is_some()
}

/// Whether `s` begins with `prefix`.
pub open spec fn begins(s: Seq<char>, prefix: Seq<char>) -> bool {
    occurs_at(s, prefix, 0)
}

/// Whether `s` begins with `prefix`.
pub fn begins_with(s: &str, prefix: &str) -> (r: bool)
    ensures
        r == begins(s@, prefix@),
{
    let size: usize = prefix.unicode_len();
    size <= s.unicode_len() && same_text(s.substring_char(0, size), prefix)
}

/// The parts, with `between` standing between each two of them.
pub open spec fn join(parts: Seq<Seq<char>>, between: Seq<char>) -> Seq<char>
    decreases parts.len(),
{
    if parts.len() == 0 {
        Seq::empty()
    } else if parts.len() == 1 {
        parts[0]
    } else {
        join(parts.drop_last(), between) + between + parts.last()
    }
}

/// The parts in one text, with `between` standing between each two of them.
pub fn joined(parts: &Vec<String>, between: &str) -> (r: String)
    ensures
        r@ == join(texts(parts@), between@),
{
    let mut out = String::new();
    let mut i: usize = 0;
    while i < parts.len()
        invariant
            i <= parts.len(),
            out@ == join(texts(parts@).take(i as int), between@),
        decreases parts.len() - i,
    {
        let ghost so_far = texts(parts@).take(i as int);
        let ghost next = texts(parts@).take(i + 1);
        assert(next.drop_last() =~= so_far);
        assert(next.last() == parts@[i as int]@);
        if i > 0 {
            out.append(between);
        }
        out.append(parts[i].as_str());
        proof {
            if i == 0 {
                assert(out@ =~= parts@[0]@);
            }
        }
        i = i + 1;
    }
    assert(texts(parts@).take(parts.len() as int) =~= texts(parts@));
    out
}

/// The digit that stands for `d`, which is below ten.
pub open spec fn digit_char(d: nat) -> char {
    if d == 0 {
        '0'
    } else if d == 1 {
        '1'
    } else if d == 2 {
        '2'
    } else if d == 3 {
        '3'
    } else if d == 4 {
        '4'
    } else if d == 5 {
        '5'
    } else if d == 6 {
        '6'
    } else if d == 7 {
        '7'
    } else if d == 8 {
        '8'
    } else {
        '9'
    }
}

/// How `n` is written in decimal, without leading zeros.
pub open spec fn decimal(n: nat) -> Seq<char>
    decreases n,
{
    if n < 10 {
        seq![digit_char(n)]
    } else {
        decimal(n / 10).push(digit_char(n % 10))
    }
}

/// Appends the digit that stands for `d`.
fn append_digit(out: &mut String, d: u64)
    requires
        d < 10,
    ensures
        final(out)@ == old(out)@.push(digit_char(d as nat)),
{
    let digit: &str = if d == 0 {
        "0"
    } else if d == 1 {
        "1"
    } else if d == 2 {
        "2"
    } else if d == 3 {
        "3"
    } else if d == 4 {
        "4"
    } else if d == 5 {
        "5"
    } else if d == 6 {
        "6"
    } else if d == 7 {
        "7"
    } else if d == 8 {
        "8"
    } else {
        "9"
    };
    proof {
        reveal_strlit("0");
        reveal_strlit("1");
        reveal_strlit("2");
        reveal_strlit("3");
        reveal_strlit("4");
        reveal_strlit("5");
        reveal_strlit("6");
        reveal_strlit("7");
        reveal_strlit("8");
        reveal_strlit("9");
    }
    assert(digit@ =~= seq![digit_char(d as nat)]);
    out.append(digit);
    assert(out@ =~= old(out)@.push(digit_char(d as nat)));
}

/// Appends `n` in decimal.
pub fn append_decimal(out: &mut String, n: u128)
    ensures
        final(out)@ == old(out)@ + decimal(n as nat),
    decreases n,
{
    if n < 10 {
        append_digit(out, n as u64);
        assert(out@ =~= old(out)@ + decimal(n as nat));
    } else {
        append_decimal(out, n / 10);
        append_digit(out, (n % 10) as u64);
        assert(out@ =~= old(out)@ + decimal(n as nat));
    }
}

/// `n` in decimal.
pub fn decimal_text(n: u64) -> (r: String)
    ensures
        r@ == decimal(n as nat),
{
    let mut out = String::new();
    append_decimal(&mut out, n as u128);
    assert(out@ =~= decimal(n as nat));
    out
}

/// What the digit `c` stands for, if it is one.
pub open spec fn digit_value(c: char) -> Option<nat> {
    if '0' <= c <= '9' {
        Some((c as int - '0' as int) as nat)
    } else {
        None
    }
}

/// Whether `s` is made of digits alone.
pub open spec fn all_digits(s: Seq<char>) -> bool {
    forall|i: int| 0 <= i < s.len() ==> digit_value(#[trigger] s[i]) is Some
}

/// The number a run of digits spells.
pub open spec fn digits_value(s: Seq<char>) -> nat
    decreases s.len(),
{
    if s.len() == 0 {
        0
    } else {
        digits_value(s.drop_last()) * 10 + digit_value(s.last()).unwrap_or(0)
    }
}

/// The digits of a number as it is typed: one leading `+` is allowed.
pub open spec fn unsigned_digits(s: Seq<char>) -> Seq<char> {
    if s.len() > 0 && s[0] == '+' {
        s.subrange(1, s.len() as int)
    } else {
        s
    }
}

/// The number that `s` spells, if it spells one no larger than `max`.
pub open spec fn parsed(s: Seq<char>, max: nat) -> Option<nat> {
    let digits = unsigned_digits(s);
    if digits.len() > 0 && all_digits(digits) && digits_value(digits) <= max {
        Some(digits_value(digits))
    } else {
        None
    }
}

/// A number has at least the value of the digits it starts with.
proof fn lemma_digits_grow(s: Seq<char>, k: int)
    requires
        0 <= k <= s.len(),
    ensures
        digits_value(s.take(k)) <= digits_value(s),
    decreases s.len() - k,
{
    if k < s.len() {
        lemma_digits_grow(s, k + 1);
        assert(s.take(k + 1).drop_last() =~= s.take(k));
    } else {
        assert(s.take(k) =~= s);
    }
}

/// What the digit `c` stands for, if it is one.
fn digit_of(c: char) -> (r: Option<u64>)
    ensures
        match r {
            Some(d) => digit_value(c) == Some(d as nat),
            None => digit_value(c) is None,
        },
{
    if '0' <= c && c <= '9' {
        Some((c as u64) - ('0' as u64))
    } else {
        None
    }
}

/// Reads an unsigned number no larger than `max`.
pub fn parse_number(s: &str, max: u64) -> (r: Option<u64>)
    ensures
        match r {
            Some(n) => parsed(s@, max as nat) == Some(n as nat),
            None => parsed(s@, max as nat) is None,
        },
{
    let chars = chars_of(s);
    let from: usize = if chars.len() > 0 && chars[0] == '+' {
        1
    } else {
        0
    };
    let ghost digits = unsigned_digits(s@);
    assert(digits =~= s@.subrange(from as int, s@.len() as int));
    if from == chars.len() {
        return None;
    }
    let mut value: u64 = 0;
    let mut i: usize = from;
    assert(digits.take(0) =~= Seq::<char>::empty());
    while i < chars.len()
        invariant
            from <= i <= chars.len(),
            chars@ == s@,
            digits == s@.subrange(from as int, s@.len() as int),
            digits == unsigned_digits(s@),
            value <= max,
            value == digits_value(digits.take(i - from)),
            forall|k: int| 0 <= k < i - from ==> digit_value(#[trigger] digits[k]) is Some,
        decreases chars.len() - i,
    {
        let ghost at = i - from;
        assert(digits.take(at + 1).drop_last() =~= digits.take(at));
        assert(digits.take(at + 1).last() == digits[at]);
        match digit_of(chars[i]) {
            Some(d) => {
                let wide: u128 = (value as u128) * 10 + (d as u128);
                if wide > max as u128 {
                    proof {
                        lemma_digits_grow(digits, at + 1);
                    }
                    return None;
                }
                value = wide as u64;
            },
            None => {
                assert(digit_value(digits[at]) is None);
                return None;
            },
        }
        i = i + 1;
    }
    assert(digits.take(digits.len() as int) =~= digits);
    Some(value)
}

/// A number is spelled by digits alone, at least one of them, and they spell it.
proof fn lemma_decimal_digits(n: nat)
    ensures
        decimal(n).len() > 0,
        all_digits(decimal(n)),
        digits_value(decimal(n)) == n,
    decreases n,
{
    if n < 10 {
        let s = seq![digit_char(n)];
        assert(s.drop_last() =~= Seq::<char>::empty());
        assert(digits_value(s.drop_last()) == 0);
        assert(s.last() == digit_char(n));
    } else {
        lemma_decimal_digits(n / 10);
        let s = decimal(n / 10).push(digit_char(n % 10));
        assert(s.drop_last() =~= decimal(n / 10));
    }
}

/// A number written in decimal reads back as itself, so a form that shows a
/// saved number and is saved untouched keeps it.
pub proof fn number_reads_back(n: nat, max: nat)
    requires
        n <= max,
    ensures
        parsed(decimal(n), max) == Some(n),
{
    lemma_decimal_digits(n);
    assert(digit_value(decimal(n)[0]) is Some);
}

/// Different numbers are written differently.
pub proof fn decimal_injective(a: nat, b: nat)
    requires
        decimal(a) == decimal(b),
    ensures
        a == b,
{
    lemma_decimal_digits(a);
    lemma_decimal_digits(b);
}

/// A text without its leading white space starts with none.
proof fn lemma_trim_start(s: Seq<char>)
    ensures
        trim_start(s).len() > 0 ==> !is_white(trim_start(s)[0]),
    decreases s.len(),
{
    if s.len() > 0 && is_white(s[0]) {
        lemma_trim_start(s.subrange(1, s.len() as int));
    }
}

/// A text without its trailing white space ends with none, and starts as before.
proof fn lemma_trim_end(s: Seq<char>)
    ensures
        trim_end(s).len() > 0 ==> !is_white(trim_end(s).last()) && trim_end(s)[0] == s[0],
    decreases s.len(),
{
    if s.len() > 0 && is_white(s.last()) {
        lemma_trim_end(s.subrange(0, s.len() - 1));
    }
}

/// What is trimmed has nothing left to trim.
pub proof fn trimming_once_is_enough(s: Seq<char>)
    ensures
        trim(trim(s)) == trim(s),
{
    lemma_trim_start(s);
    lemma_trim_end(trim_start(s));
}

/// Joining one part more puts what stands between and the part behind the rest;
/// one part alone is itself, and none are nothing.
pub proof fn joining_one_more(parts: Seq<Seq<char>>, between: Seq<char>, part: Seq<char>)
    ensures
        join(Seq::empty(), between).len() == 0,
        parts.len() == 0 ==> join(parts.push(part), between) == part,
        parts.len() > 0 ==> join(parts.push(part), between) == join(parts, between) + between + part,
{
    assert(parts.push(part).drop_last() =~= parts);
}

/// Two lists joined after each other are joined with what stands between.
pub proof fn joining_two_lists(a: Seq<Seq<char>>, b: Seq<Seq<char>>, between: Seq<char>)
    requires
        a.len() > 0,
        b.len() > 0,
    ensures
        join(a + b, between) == join(a, between) + between + join(b, between),
    decreases b.len(),
{
    let fewer = b.drop_last();
    assert(b =~= fewer.push(b.last()));
    assert(a + b =~= (a + fewer).push(b.last()));
    joining_one_more(a + fewer, between, b.last());
    joining_one_more(fewer, between, b.last());
    if fewer.len() > 0 {
        joining_two_lists(a, fewer, between);
        assert(join(a + b, between) =~= join(a, between) + between + join(b, between));
    } else {
        assert(a + fewer =~= a);
    }
}

/// A number is written as the digits of its tenth with its last digit behind
/// them, and a number below ten as the one character that stands that far behind
/// `0`.
pub proof fn a_number_is_its_digits(n: nat, d: nat)
    requires
        d < 10,
    ensures
        decimal(d).len() == 1,
        decimal(d)[0] as int == '0' as int + d,
        n > 0 ==> decimal((10 * n + d) as nat) == decimal(n) + decimal(d),
{
    assert((10 * n + d) / 10 == n && (10 * n + d) % 10 == d) by (nonlinear_arith)
        requires
            d < 10,
    ;
}

/// Trimming takes white space from the ends and nothing else: what is left
/// neither begins nor ends with any.
pub proof fn trimming_takes_white_space_only(s: Seq<char>)
    ensures
        exists|from: int, to: int|
            0 <= from <= to <= s.len() && #[trigger] s.subrange(from, to) == trim(s) && forall|i: int|
                0 <= i < s.len() && !(from <= i < to) ==> is_white(#[trigger] s[i]),
        trim(s).len() > 0 ==> !is_white(trim(s)[0]) && !is_white(trim(s).last()),
{
    lemma_trim_start(s);
    lemma_trim_end(trim_start(s));
    let from = lemma_cut_start(s);
    let to = from + lemma_cut_end(trim_start(s));
    assert(s.subrange(from, to) =~= trim(s));
    assert forall|i: int| 0 <= i < s.len() && !(from <= i < to) implies is_white(#[trigger] s[i]) by {
        if i >= to {
            assert(trim_start(s)[i - from] == s[i]);
        }
    }
}

/// How much the start of a text loses.
proof fn lemma_cut_start(s: Seq<char>) -> (from: int)
    ensures
        0 <= from <= s.len(),
        trim_start(s) == s.subrange(from, s.len() as int),
        forall|i: int| 0 <= i < from ==> is_white(#[trigger] s[i]),
    decreases s.len(),
{
    if s.len() > 0 && is_white(s[0]) {
        let rest = s.subrange(1, s.len() as int);
        let from = lemma_cut_start(rest);
        assert(rest.subrange(from, rest.len() as int) =~= s.subrange(from + 1, s.len() as int));
        assert forall|i: int| 0 <= i < from + 1 implies is_white(#[trigger] s[i]) by {
            if i > 0 {
                assert(rest[i - 1] == s[i]);
            }
        }
        from + 1
    } else {
        assert(s.subrange(0, s.len() as int) =~= s);
        0
    }
}

/// How much of a text its end leaves.
proof fn lemma_cut_end(s: Seq<char>) -> (to: int)
    ensures
        0 <= to <= s.len(),
        trim_end(s) == s.subrange(0, to),
        forall|i: int| to <= i < s.len() ==> is_white(#[trigger] s[i]),
    decreases s.len(),
{
    if s.len() > 0 && is_white(s.last()) {
        let rest = s.subrange(0, s.len() - 1);
        let to = lemma_cut_end(rest);
        assert(rest.subrange(0, to) =~= s.subrange(0, to));
        assert forall|i: int| to <= i < s.len() implies is_white(#[trigger] s[i]) by {
            if i < s.len() - 1 {
                assert(rest[i] == s[i]);
            }
        }
        to
    } else {
        assert(s.subrange(0, s.len() as int) =~= s);
        s.len() as int
    }
}

/// White space is what Unicode calls so.
pub proof fn white_space_is_what_unicode_calls_so(c: char)
    ensures
        is_white(c) <==> {
            let n = c as u32;
            ||| 0x9 <= n <= 0xd
            ||| n == 0x20
            ||| n == 0x85
            ||| n == 0xa0
            ||| n == 0x1680
            ||| 0x2000 <= n <= 0x200a
            ||| n == 0x2028
            ||| n == 0x2029
            ||| n == 0x202f
            ||| n == 0x205f
            ||| n == 0x3000
        },
{
}

/// A text is blank where every character of it is white space, and only there.
pub proof fn a_blank_text_is_white_throughout(s: Seq<char>)
    ensures
        is_blank(s) <==> forall|i: int| 0 <= i < s.len() ==> is_white(#[trigger] s[i]),
{
    trimming_takes_white_space_only(s);
    let (from, to) = choose|from: int, to: int|
        0 <= from <= to <= s.len() && #[trigger] s.subrange(from, to) == trim(s) && forall|i: int|
            0 <= i < s.len() && !(from <= i < to) ==> is_white(#[trigger] s[i]);
    if trim(s).len() > 0 {
        assert(s.subrange(from, to)[0] == s[from]);
        assert(!is_white(s[from]));
    }
}

/// A number is read digit by digit, with a sign before it or without; the digits may begin
/// with noughts. One over the bound is none, and so is anything that is no number.
pub proof fn a_number_is_read_digit_by_digit(s: Seq<char>, d: nat, max: nat)
    requires
        d < 10,
    ensures
        parsed(Seq::empty(), max) is None,
        parsed(seq!['+'], max) is None,
        (exists|i: int|
            0 <= i < s.len() && !('0' <= #[trigger] s[i] <= '9') && !(i == 0 && s[0] == '+'))
            ==> parsed(s, max) is None,
        parsed(s, max) matches Some(n) ==> n <= max,
        s.len() > 0 && '0' <= s[0] <= '9' ==> parsed(seq!['+'] + s, max) == parsed(s, max),
        d <= max ==> parsed(seq![('0' as u32 + d as u32) as char], max) == Some(d),
        parsed(s, max) matches Some(n) ==> parsed(
            s.push(('0' as u32 + d as u32) as char),
            max,
        ) == if 10 * n + d <= max {
            Some(10 * n + d)
        } else {
            None
        },
{
    let c = ('0' as u32 + d as u32) as char;
    assert(digit_value(c) == Some(d));
    assert(unsigned_digits(seq!['+']) =~= Seq::<char>::empty());
    assert(unsigned_digits(seq!['+'] + s) =~= s);
    if exists|i: int|
        0 <= i < s.len() && !('0' <= #[trigger] s[i] <= '9') && !(i == 0 && s[0] == '+') {
        let i = choose|i: int|
            0 <= i < s.len() && !('0' <= #[trigger] s[i] <= '9') && !(i == 0 && s[0] == '+');
        let digits = unsigned_digits(s);
        if s[0] == '+' {
            assert(digits[i - 1] == s[i]);
            assert(digit_value(digits[i - 1]) is None);
        } else {
            assert(digit_value(digits[i]) is None);
        }
    }
    let one = seq![c];
    assert(one.drop_last() =~= Seq::<char>::empty());
    assert(digits_value(one.drop_last()) == 0);
    assert(unsigned_digits(one) =~= one);
    assert(digits_value(one) == d);
    if parsed(s, max) is Some {
        let digits = unsigned_digits(s);
        let more = unsigned_digits(s.push(c));
        assert(more =~= digits.push(c));
        assert(more.drop_last() =~= digits);
        assert(digits_value(more) == digits_value(digits) * 10 + d);
        assert forall|i: int| 0 <= i < more.len() implies digit_value(#[trigger] more[i]) is Some by {
            if i < digits.len() {
                assert(more[i] == digits[i]);
            }
        }
    }
}

/// A list of strings reads as the texts it holds, and a string that may be absent as its
/// text.
pub proof fn strings_read_as_their_texts(list: Seq<String>, i: int, s: String, t: &str)
    ensures
        texts(list).len() == list.len(),
        0 <= i < list.len() ==> texts(list)[i] == list[i]@,
        maybe_text(Some(s)) == Some(s@),
        maybe_text(None) is None,
        str_text(Some(t)) == Some(t@),
        str_text(None) is None,
{
}

/// A text stands at a place where its characters are those from there on.
pub proof fn a_text_stands_where_its_characters_do(s: Seq<char>, needle: Seq<char>, at: int)
    ensures
        occurs_at(s, needle, at) <==> 0 <= at && at + needle.len() <= s.len() && forall|i: int|
            0 <= i < needle.len() ==> s[at + i] == #[trigger] needle[i],
{
    if 0 <= at && at + needle.len() <= s.len() {
        let part = s.subrange(at, at + needle.len());
        if forall|i: int| 0 <= i < needle.len() ==> s[at + i] == #[trigger] needle[i] {
            assert(part =~= needle);
        }
        if part == needle {
            assert forall|i: int| 0 <= i < needle.len() implies s[at + i] == #[trigger] needle[i] by {
                assert(part[i] == needle[i]);
            }
        }
    }
}

/// A text is found where it stands first.
pub proof fn a_text_is_found_where_it_stands(before: Seq<char>, needle: Seq<char>, after: Seq<char>)
    requires
        forall|k: int|
            0 <= k < before.len() ==> !#[trigger] occurs_at(before + needle + after, needle, k),
    ensures
        find(before + needle + after, needle) == Some(before.len() as int),
        begins(needle + after, needle),
        occurs(before + needle + after, needle),
{
    let s = before + needle + after;
    let at = before.len() as int;
    assert(s.subrange(at, at + needle.len()) =~= needle);
    assert(occurs_at(s, needle, at));
    first_is_found(s, needle, at);
    assert((needle + after).subrange(0, needle.len() as int) =~= needle);
}

} // verus!
