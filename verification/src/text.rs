//! Text as sequences of characters: comparison, splitting, trimming and joining.

use vstd::prelude::*;
use vstd::string::StringExecFns;

verus! {

/// `String::push` of std appends one character to the end of the string and
/// leaves what was there before unchanged.
pub assume_specification[ String::push ](text: &mut String, c: char)
    ensures
        final(text)@ == old(text)@.push(c),
;

/// The contents of a list of strings.
pub open spec fn texts(list: Seq<String>) -> Seq<Seq<char>> {
    list.map_values(|text: String| text@)
}

/// The contents of an optional string.
pub open spec fn text_option(text: Option<String>) -> Option<Seq<char>> {
    match text {
        Some(text) => Some(text@),
        None => None,
    }
}

/// The message of an outcome that is refused.
pub open spec fn refusal(outcome: Result<(), String>) -> Option<Seq<char>> {
    match outcome {
        Ok(_) => None,
        Err(message) => Some(message@),
    }
}

// ---------------------------------------------------------------------------
// Characters

/// The lower-case form of an ASCII letter; any other character is itself.
pub open spec fn ascii_lower(c: char) -> char {
    if 'A' <= c <= 'Z' {
        (c as u32 + 32) as char
    } else {
        c
    }
}

/// The upper-case form of an ASCII letter; any other character is itself.
pub open spec fn ascii_upper(c: char) -> char {
    if 'a' <= c <= 'z' {
        (c as u32 - 32) as char
    } else {
        c
    }
}

/// A text with its ASCII letters in lower case.
pub open spec fn lowered(text: Seq<char>) -> Seq<char> {
    text.map_values(|c: char| ascii_lower(c))
}

/// A text with its ASCII letters in upper case.
pub open spec fn uppered(text: Seq<char>) -> Seq<char> {
    text.map_values(|c: char| ascii_upper(c))
}

/// The characters with Unicode's `White_Space` property.
pub open spec fn white_space(c: char) -> bool {
    ||| '\u{9}' <= c <= '\u{d}'
    ||| c == '\u{20}'
    ||| c == '\u{85}'
    ||| c == '\u{a0}'
    ||| c == '\u{1680}'
    ||| '\u{2000}' <= c <= '\u{200a}'
    ||| c == '\u{2028}'
    ||| c == '\u{2029}'
    ||| c == '\u{202f}'
    ||| c == '\u{205f}'
    ||| c == '\u{3000}'
}

/// Whether a character is an ASCII decimal digit.
pub open spec fn is_digit(c: char) -> bool {
    '0' <= c <= '9'
}

/// The lower-case form of an ASCII letter; any other character is itself.
pub fn to_ascii_lower(c: char) -> (lower: char)
    ensures
        lower == ascii_lower(c),
{
    if 'A' <= c && c <= 'Z' {
        (c as u8 + 32) as char
    } else {
        c
    }
}

/// The upper-case form of an ASCII letter; any other character is itself.
pub fn to_ascii_upper(c: char) -> (upper: char)
    ensures
        upper == ascii_upper(c),
{
    if 'a' <= c && c <= 'z' {
        (c as u8 - 32) as char
    } else {
        c
    }
}

/// Whether a character has Unicode's `White_Space` property.
pub fn is_white_space(c: char) -> (white: bool)
    ensures
        white == white_space(c),
{
    ('\u{9}' <= c && c <= '\u{d}') || c == '\u{20}' || c == '\u{85}' || c == '\u{a0}' || c
        == '\u{1680}' || ('\u{2000}' <= c && c <= '\u{200a}') || c == '\u{2028}' || c == '\u{2029}'
        || c == '\u{202f}' || c == '\u{205f}' || c == '\u{3000}'
}

// ---------------------------------------------------------------------------
// Building and comparing

/// The characters of a text.
pub fn chars_of(text: &str) -> (chars: Vec<char>)
    ensures
        chars@ == text@,
{
    let mut chars: Vec<char> = Vec::new();
    for c in it: text.chars()
        invariant
            chars@ == it.seq().take(it.index() as int),
            it.seq() == text@,
    {
        chars.push(c);
    }
    chars
}

/// The string made of a range of characters.
pub fn text_between(chars: &Vec<char>, from: usize, to: usize) -> (text: String)
    requires
        from <= to <= chars@.len(),
    ensures
        text@ == chars@.subrange(from as int, to as int),
{
    let mut text = String::new();
    let mut i: usize = from;
    while i < to
        invariant
            from <= i <= to <= chars@.len(),
            text@ == chars@.subrange(from as int, i as int),
        decreases to - i,
    {
        text.push(chars[i]);
        i += 1;
    }
    text
}

/// Whether the characters of `part` stand in `chars` from position `at` on.
fn stands_at(chars: &Vec<char>, at: usize, part: &Vec<char>) -> (stands: bool)
    requires
        at + part@.len() <= chars@.len(),
    ensures
        stands == (chars@.subrange(at as int, at + part@.len()) == part@),
{
    let total: usize = chars.len();
    let mut i: usize = 0;
    while i < part.len()
        invariant
            i <= part@.len(),
            total == chars@.len(),
            at + part@.len() <= chars@.len(),
            forall|k: int| 0 <= k < i ==> chars@[at + k] == part@[k],
        decreases part@.len() - i,
    {
        if chars[at + i] != part[i] {
            assert(chars@.subrange(at as int, at + part@.len())[i as int] != part@[i as int]);
            return false;
        }
        i += 1;
    }
    assert(chars@.subrange(at as int, at + part@.len()) =~= part@);
    true
}

/// Whether two texts are the same.
pub fn same(a: &str, b: &str) -> (equal: bool)
    ensures
        equal == (a@ == b@),
{
    let x = chars_of(a);
    let y = chars_of(b);
    if x.len() != y.len() {
        return false;
    }
    assert(x@.subrange(0, y@.len() as int) =~= x@);
    stands_at(&x, 0, &y)
}

/// A copy of a text with its ASCII letters in lower case.
pub fn to_lowered(text: &str) -> (lower: String)
    ensures
        lower@ == lowered(text@),
{
    let chars = chars_of(text);
    let mut lower = String::new();
    let mut i: usize = 0;
    while i < chars.len()
        invariant
            i <= chars@.len(),
            lower@ == lowered(chars@.take(i as int)),
        decreases chars@.len() - i,
    {
        lower.push(to_ascii_lower(chars[i]));
        i += 1;
        assert(lower@ =~= lowered(chars@.take(i as int)));
    }
    assert(chars@.take(i as int) =~= chars@);
    lower
}

/// Whether two texts are the same up to the case of ASCII letters.
pub fn same_ignoring_case(a: &str, b: &str) -> (equal: bool)
    ensures
        equal == (lowered(a@) == lowered(b@)),
{
    let x = to_lowered(a);
    let y = to_lowered(b);
    same(x.as_str(), y.as_str())
}

/// What follows `prefix` in `text`, if `text` starts with it.
pub fn after_prefix(text: &str, prefix: &str) -> (rest: Option<String>)
    ensures
        rest is Some <==> prefix@.is_prefix_of(text@),
        rest is Some ==> rest->0@ == text@.skip(prefix@.len() as int),
{
    let chars = chars_of(text);
    let start = chars_of(prefix);
    if start.len() <= chars.len() && stands_at(&chars, 0, &start) {
        Some(text_between(&chars, start.len(), chars.len()))
    } else {
        None
    }
}

/// Whether `text` starts with `prefix`.
pub fn starts_with(text: &str, prefix: &str) -> (starts: bool)
    ensures
        starts == prefix@.is_prefix_of(text@),
{
    after_prefix(text, prefix).is_some()
}

/// Whether `text` ends with `suffix`.
pub fn ends_with(text: &str, suffix: &str) -> (ends: bool)
    ensures
        ends == suffix@.is_suffix_of(text@),
{
    let chars = chars_of(text);
    let end = chars_of(suffix);
    end.len() <= chars.len() && stands_at(&chars, chars.len() - end.len(), &end)
}

/// The position of the first occurrence of `part` in `text`, if there is one.
pub open spec fn find(text: Seq<char>, part: Seq<char>) -> Option<int>
    decreases text.len(),
{
    if part.is_prefix_of(text) {
        Some(0)
    } else if text.len() == 0 {
        None
    } else {
        match find(text.drop_first(), part) {
            Some(at) => Some(at + 1),
            None => None,
        }
    }
}

/// Whether `part` stands somewhere in `text`.
pub open spec fn contains(text: Seq<char>, part: Seq<char>) -> bool {
    find(text, part) is Some
}

/// What `find` finds is the first occurrence.
pub proof fn lemma_find(text: Seq<char>, part: Seq<char>)
    ensures
        match find(text, part) {
            Some(at) => {
                &&& 0 <= at <= text.len() - part.len()
                &&& part.is_prefix_of(text.skip(at))
                &&& forall|k: int| 0 <= k < at ==> !part.is_prefix_of(#[trigger] text.skip(k))
            },
            None => forall|k: int|
                0 <= k <= text.len() ==> !part.is_prefix_of(#[trigger] text.skip(k)),
        },
    decreases text.len(),
{
    assert(text.skip(0) =~= text);
    if !part.is_prefix_of(text) && text.len() > 0 {
        let rest = text.drop_first();
        lemma_find(rest, part);
        assert forall|k: int| 0 < k <= text.len() implies #[trigger] text.skip(k) == rest.skip(
            k - 1,
        ) by {
            assert(text.skip(k) =~= rest.skip(k - 1));
        }
    }
}

/// A position where `part` stands and before which it stands nowhere is the
/// one that `find` finds.
pub proof fn lemma_find_is(text: Seq<char>, part: Seq<char>, at: int)
    requires
        0 <= at <= text.len(),
        part.is_prefix_of(text.skip(at)),
        forall|k: int| 0 <= k < at ==> !part.is_prefix_of(#[trigger] text.skip(k)),
    ensures
        find(text, part) == Some(at),
{
    lemma_find(text, part);
}

/// The position of the first occurrence of `part` in `text`, if there is one.
pub fn position_of(text: &str, part: &str) -> (at: Option<usize>)
    ensures
        match at {
            Some(at) => find(text@, part@) == Some(at as int),
            None => find(text@, part@) is None,
        },
{
    let chars = chars_of(text);
    let needle = chars_of(part);
    let mut at: usize = 0;
    while at < chars.len() && needle.len() <= chars.len() - at
        invariant
            chars@ == text@,
            needle@ == part@,
            at <= chars@.len(),
            forall|k: int| 0 <= k < at ==> !part@.is_prefix_of(#[trigger] text@.skip(k)),
        decreases chars@.len() - at,
    {
        if stands_at(&chars, at, &needle) {
            proof {
                assert(text@.skip(at as int).take(part@.len() as int) =~= text@.subrange(
                    at as int,
                    at + part@.len(),
                ));
                lemma_find_is(text@, part@, at as int);
            }
            return Some(at);
        }
        assert(text@.skip(at as int).take(part@.len() as int) =~= text@.subrange(
            at as int,
            at + part@.len(),
        ));
        at += 1;
    }
    if needle.len() == 0 {
        proof {
            lemma_find_is(text@, part@, at as int);
        }
        return Some(at);
    }
    proof {
        lemma_find(text@, part@);
    }
    None
}

/// The characters of `text` before position `to`.
pub fn text_before(text: &str, to: usize) -> (result: String)
    requires
        to <= text@.len(),
    ensures
        result@ == text@.take(to as int),
{
    let chars = chars_of(text);
    text_between(&chars, 0, to)
}

/// A text with every `from` replaced by `to`.
pub open spec fn replaced(text: Seq<char>, from: char, to: char) -> Seq<char> {
    text.map_values(|c: char| if c == from { to } else { c })
}

/// A copy of a text in which every `from` is replaced by `to`.
pub fn replace_char(text: &str, from: char, to: char) -> (result: String)
    ensures
        result@ == replaced(text@, from, to),
{
    let chars = chars_of(text);
    let mut result = String::new();
    let mut i: usize = 0;
    while i < chars.len()
        invariant
            i <= chars@.len(),
            result@ == replaced(chars@.take(i as int), from, to),
        decreases chars@.len() - i,
    {
        if chars[i] == from {
            result.push(to);
        } else {
            result.push(chars[i]);
        }
        i += 1;
        assert(result@ =~= replaced(chars@.take(i as int), from, to));
    }
    assert(chars@.take(i as int) =~= chars@);
    result
}

/// A copy of a text with its ASCII letters in upper case.
pub fn to_uppered(text: &str) -> (upper: String)
    ensures
        upper@ == uppered(text@),
{
    let chars = chars_of(text);
    let mut upper = String::new();
    let mut i: usize = 0;
    while i < chars.len()
        invariant
            i <= chars@.len(),
            upper@ == uppered(chars@.take(i as int)),
        decreases chars@.len() - i,
    {
        upper.push(to_ascii_upper(chars[i]));
        i += 1;
        assert(upper@ =~= uppered(chars@.take(i as int)));
    }
    assert(chars@.take(i as int) =~= chars@);
    upper
}

// ---------------------------------------------------------------------------
// Splitting, trimming and joining

/// The position of the first `c` in `text`, or its length if there is none.
pub open spec fn find_char(text: Seq<char>, c: char) -> int
    decreases text.len(),
{
    if text.len() == 0 || text[0] == c {
        0
    } else {
        1 + find_char(text.drop_first(), c)
    }
}

/// What `find_char` finds is the first occurrence.
pub proof fn lemma_find_char(text: Seq<char>, c: char)
    ensures
        0 <= find_char(text, c) <= text.len(),
        find_char(text, c) < text.len() ==> text[find_char(text, c)] == c,
        forall|i: int| 0 <= i < find_char(text, c) ==> text[i] != c,
    decreases text.len(),
{
    if text.len() > 0 && text[0] != c {
        let rest = text.drop_first();
        lemma_find_char(rest, c);
        assert forall|i: int| 0 <= i < find_char(text, c) implies text[i] != c by {
            if i > 0 {
                assert(rest[i - 1] == text[i]);
            }
        }
    }
}

/// A position with `c` and none before it is the one that `find_char` finds.
pub proof fn lemma_find_char_is(text: Seq<char>, c: char, at: int)
    requires
        0 <= at <= text.len(),
        at < text.len() ==> text[at] == c,
        forall|i: int| 0 <= i < at ==> text[i] != c,
    ensures
        find_char(text, c) == at,
{
    lemma_find_char(text, c);
}

/// The pieces of a text between the occurrences of a separator.
pub open spec fn split(text: Seq<char>, separator: char) -> Seq<Seq<char>>
    decreases text.len(),
{
    proof {
        lemma_find_char(text, separator);
    }
    let at = find_char(text, separator);
    if at == text.len() {
        seq![text]
    } else {
        seq![text.take(at)] + split(text.skip(at + 1), separator)
    }
}

/// The position of the first `c` in `chars` from `from` on, or the length.
fn next_char(chars: &Vec<char>, from: usize, c: char) -> (at: usize)
    requires
        from <= chars@.len(),
    ensures
        from <= at <= chars@.len(),
        at - from == find_char(chars@.skip(from as int), c),
{
    let mut at: usize = from;
    while at < chars.len() && chars[at] != c
        invariant
            from <= at <= chars@.len(),
            forall|i: int| from <= i < at ==> chars@[i] != c,
        decreases chars@.len() - at,
    {
        at += 1;
    }
    proof {
        lemma_find_char_is(chars@.skip(from as int), c, at - from);
    }
    at
}

/// The pieces of a text between the occurrences of a separator.
pub fn split_at_char(text: &str, separator: char) -> (pieces: Vec<String>)
    ensures
        texts(pieces@) == split(text@, separator),
{
    let chars = chars_of(text);
    let mut pieces: Vec<String> = Vec::new();
    let mut from: usize = 0;
    assert(chars@.skip(0) =~= chars@);
    assert(texts(pieces@) + split(chars@, separator) =~= split(chars@, separator));
    loop
        invariant_except_break
            from <= chars@.len(),
            texts(pieces@) + split(chars@.skip(from as int), separator) == split(chars@, separator),
        ensures
            texts(pieces@) == split(chars@, separator),
        decreases chars@.len() - from,
    {
        let at = next_char(&chars, from, separator);
        let ghost rest = chars@.skip(from as int);
        let ghost before = texts(pieces@);
        pieces.push(text_between(&chars, from, at));
        assert(texts(pieces@) =~= before.push(chars@.subrange(from as int, at as int)));
        if at == chars.len() {
            assert(rest =~= chars@.subrange(from as int, at as int));
            assert(texts(pieces@) =~= before + split(rest, separator));
            break;
        }
        assert(rest.take(at - from) =~= chars@.subrange(from as int, at as int));
        assert(rest.skip(at - from + 1) =~= chars@.skip(at + 1));
        assert(texts(pieces@) + split(chars@.skip(at + 1), separator) =~= before + split(
            rest,
            separator,
        ));
        from = at + 1;
    }
    pieces
}

/// A text without one carriage return at its end.
pub open spec fn without_return(text: Seq<char>) -> Seq<char> {
    if text.len() > 0 && text.last() == '\r' {
        text.drop_last()
    } else {
        text
    }
}

/// The lines of a text. A line ends with a line feed, before which one carriage
/// return belongs to the line's end; the last line may lack that end, and what
/// it holds is then kept as it is.
pub open spec fn lines(text: Seq<char>) -> Seq<Seq<char>>
    decreases text.len(),
{
    proof {
        lemma_find_char(text, '\n');
    }
    let at = find_char(text, '\n');
    if text.len() == 0 {
        seq![]
    } else if at == text.len() {
        seq![text]
    } else {
        seq![without_return(text.take(at))] + lines(text.skip(at + 1))
    }
}

/// The lines of a text.
pub fn lines_of(text: &str) -> (list: Vec<String>)
    ensures
        texts(list@) == lines(text@),
{
    let chars = chars_of(text);
    let mut list: Vec<String> = Vec::new();
    let mut from: usize = 0;
    assert(chars@.skip(0) =~= chars@);
    assert(texts(list@) + lines(chars@) =~= lines(chars@));
    while from < chars.len()
        invariant
            from <= chars@.len(),
            texts(list@) + lines(chars@.skip(from as int)) == lines(chars@),
        decreases chars@.len() - from,
    {
        let at = next_char(&chars, from, '\n');
        let ghost rest = chars@.skip(from as int);
        let ghost before = texts(list@);
        if at == chars.len() {
            list.push(text_between(&chars, from, at));
            assert(rest =~= chars@.subrange(from as int, at as int));
            assert(texts(list@) =~= before.push(rest));
            assert(chars@.skip(at as int).len() == 0);
            assert(texts(list@) + lines(chars@.skip(at as int)) =~= before + lines(rest));
            from = at;
        } else {
            let end: usize = if at > from && chars[at - 1] == '\r' {
                at - 1
            } else {
                at
            };
            list.push(text_between(&chars, from, end));
            assert(rest.take(at - from) =~= chars@.subrange(from as int, at as int));
            assert(without_return(rest.take(at - from)) =~= chars@.subrange(
                from as int,
                end as int,
            ));
            assert(texts(list@) =~= before.push(without_return(rest.take(at - from))));
            assert(rest.skip(at - from + 1) =~= chars@.skip(at + 1));
            assert(texts(list@) + lines(chars@.skip(at + 1)) =~= before + lines(rest));
            from = at + 1;
        }
    }
    assert(chars@.skip(from as int).len() == 0);
    assert(texts(list@) + lines(chars@.skip(from as int)) =~= texts(list@));
    list
}

/// A text without the characters at its start that `drop` holds of.
pub open spec fn trim_start(text: Seq<char>, drop: spec_fn(char) -> bool) -> Seq<char>
    decreases text.len(),
{
    if text.len() > 0 && drop(text[0]) {
        trim_start(text.drop_first(), drop)
    } else {
        text
    }
}

/// A text without the characters at its end that `drop` holds of.
pub open spec fn trim_end(text: Seq<char>, drop: spec_fn(char) -> bool) -> Seq<char>
    decreases text.len(),
{
    if text.len() > 0 && drop(text.last()) {
        trim_end(text.drop_last(), drop)
    } else {
        text
    }
}

/// A text without white space at its two ends.
pub open spec fn trimmed(text: Seq<char>) -> Seq<char> {
    trim_end(trim_start(text, |c: char| white_space(c)), |c: char| white_space(c))
}

/// A text without double quotes at its two ends.
pub open spec fn unquoted(text: Seq<char>) -> Seq<char> {
    trim_end(trim_start(text, |c: char| c == '"'), |c: char| c == '"')
}

/// A text without white space at its two ends.
pub fn trim(text: &str) -> (result: String)
    ensures
        result@ == trimmed(text@),
{
    let chars = chars_of(text);
    let ghost drop = |c: char| white_space(c);
    let mut from: usize = 0;
    assert(chars@.skip(0) =~= chars@);
    while from < chars.len() && is_white_space(chars[from])
        invariant
            from <= chars@.len(),
            drop == (|c: char| white_space(c)),
            trim_start(chars@.skip(from as int), drop) == trim_start(chars@, drop),
        decreases chars@.len() - from,
    {
        assert(chars@.skip(from as int).drop_first() =~= chars@.skip(from + 1));
        from += 1;
    }
    let mut to: usize = chars.len();
    assert(chars@.subrange(from as int, to as int) =~= chars@.skip(from as int));
    while to > from && is_white_space(chars[to - 1])
        invariant
            from <= to <= chars@.len(),
            drop == (|c: char| white_space(c)),
            trim_end(chars@.subrange(from as int, to as int), drop) == trim_end(
                chars@.skip(from as int),
                drop,
            ),
        decreases to,
    {
        assert(chars@.subrange(from as int, to as int).drop_last() =~= chars@.subrange(
            from as int,
            to - 1,
        ));
        to -= 1;
    }
    text_between(&chars, from, to)
}

/// A text without double quotes at its two ends.
pub fn unquote(text: &str) -> (result: String)
    ensures
        result@ == unquoted(text@),
{
    let chars = chars_of(text);
    let ghost drop = |c: char| c == '"';
    let mut from: usize = 0;
    assert(chars@.skip(0) =~= chars@);
    while from < chars.len() && chars[from] == '"'
        invariant
            from <= chars@.len(),
            drop == (|c: char| c == '"'),
            trim_start(chars@.skip(from as int), drop) == trim_start(chars@, drop),
        decreases chars@.len() - from,
    {
        assert(chars@.skip(from as int).drop_first() =~= chars@.skip(from + 1));
        from += 1;
    }
    let mut to: usize = chars.len();
    assert(chars@.subrange(from as int, to as int) =~= chars@.skip(from as int));
    while to > from && chars[to - 1] == '"'
        invariant
            from <= to <= chars@.len(),
            drop == (|c: char| c == '"'),
            trim_end(chars@.subrange(from as int, to as int), drop) == trim_end(
                chars@.skip(from as int),
                drop,
            ),
        decreases to,
    {
        assert(chars@.subrange(from as int, to as int).drop_last() =~= chars@.subrange(
            from as int,
            to - 1,
        ));
        to -= 1;
    }
    text_between(&chars, from, to)
}

/// The parts in order, with the separator between each two of them.
pub open spec fn joined(parts: Seq<Seq<char>>, separator: Seq<char>) -> Seq<char>
    decreases parts.len(),
{
    if parts.len() == 0 {
        seq![]
    } else if parts.len() == 1 {
        parts[0]
    } else {
        joined(parts.drop_last(), separator) + separator + parts.last()
    }
}

/// The parts in order, with the separator between each two of them.
pub fn join(parts: &Vec<String>, separator: &str) -> (result: String)
    ensures
        result@ == joined(texts(parts@), separator@),
{
    let mut result = String::new();
    let mut i: usize = 0;
    while i < parts.len()
        invariant
            i <= parts@.len(),
            result@ == joined(texts(parts@).take(i as int), separator@),
        decreases parts@.len() - i,
    {
        if i > 0 {
            result.append(separator);
        }
        result.append(parts[i].as_str());
        assert(texts(parts@).take(i + 1).drop_last() =~= texts(parts@).take(i as int));
        assert(texts(parts@).take(i + 1).last() == parts@[i as int]@);
        assert(i == 0 ==> result@ =~= parts@[0]@);
        i += 1;
    }
    assert(texts(parts@).take(i as int) =~= texts(parts@));
    result
}

// ---------------------------------------------------------------------------
// Names among others

/// The first of some names that is among others.
pub open spec fn first_present(names: Seq<Seq<char>>, present: Seq<Seq<char>>) -> Option<Seq<char>>
    decreases names.len(),
{
    if names.len() == 0 {
        None
    } else if present.contains(names[0]) {
        Some(names[0])
    } else {
        first_present(names.drop_first(), present)
    }
}

/// Whether a name is among others.
pub fn is_present(name: &str, present: &Vec<String>) -> (found: bool)
    ensures
        found == texts(present@).contains(name@),
{
    let ghost list = texts(present@);
    let mut i: usize = 0;
    while i < present.len()
        invariant
            i <= present@.len(),
            list == texts(present@),
            forall|k: int| 0 <= k < i ==> #[trigger] list[k] != name@,
        decreases present@.len() - i,
    {
        assert(list[i as int] == present@[i as int]@);
        if same(present[i].as_str(), name) {
            return true;
        }
        i += 1;
    }
    false
}

/// The first of some names that is among others.
pub fn find_present(names: &Vec<String>, present: &Vec<String>) -> (found: Option<String>)
    ensures
        match found {
            Some(found) => first_present(texts(names@), texts(present@)) == Some(found@),
            None => first_present(texts(names@), texts(present@)) is None,
        },
{
    let ghost list = texts(names@);
    let mut i: usize = 0;
    assert(list.skip(0) =~= list);
    while i < names.len()
        invariant
            i <= names@.len(),
            list == texts(names@),
            first_present(list, texts(present@)) == first_present(
                list.skip(i as int),
                texts(present@),
            ),
        decreases names@.len() - i,
    {
        assert(list.skip(i as int)[0] == names@[i as int]@);
        if is_present(names[i].as_str(), present) {
            return Some(names[i].clone());
        }
        assert(list.skip(i as int).drop_first() =~= list.skip(i + 1));
        i += 1;
    }
    None
}

/// The first of some names that is among others is one of both, and no name in
/// front of it is among the others. None is found exactly if there is no such
/// name.
pub proof fn law_first_present_is_the_first(names: Seq<Seq<char>>, present: Seq<Seq<char>>)
    ensures
        match first_present(names, present) {
            Some(name) => exists|i: int|
                {
                    &&& 0 <= i < names.len()
                    &&& #[trigger] names[i] == name
                    &&& present.contains(name)
                    &&& forall|j: int| 0 <= j < i ==> !present.contains(#[trigger] names[j])
                },
            None => forall|j: int| 0 <= j < names.len() ==> !present.contains(#[trigger] names[j]),
        },
    decreases names.len(),
{
    if names.len() > 0 {
        if present.contains(names[0]) {
            assert(first_present(names, present) == Some(names[0]));
        } else {
            let rest = names.drop_first();
            law_first_present_is_the_first(rest, present);
            assert forall|j: int| 0 < j < names.len() implies #[trigger] names[j] == rest[
                j - 1
            ] by {}
            if let Some(name) = first_present(rest, present) {
                let i = choose|i: int|
                    {
                        &&& 0 <= i < rest.len()
                        &&& #[trigger] rest[i] == name
                        &&& present.contains(name)
                        &&& forall|j: int| 0 <= j < i ==> !present.contains(#[trigger] rest[j])
                    };
                assert(names[i + 1] == name);
            }
        }
    }
}

// ---------------------------------------------------------------------------
// Splitting and joining undo each other

/// Joining what was split gives the text back.
pub proof fn law_split_then_join(text: Seq<char>, separator: char)
    ensures
        joined(split(text, separator), seq![separator]) == text,
    decreases text.len(),
{
    lemma_find_char(text, separator);
    let at = find_char(text, separator);
    if at < text.len() {
        let rest = text.skip(at + 1);
        law_split_then_join(rest, separator);
        lemma_joined_from_front(text.take(at), split(rest, separator), seq![separator]);
        assert(text.take(at) + seq![separator] + rest =~= text);
    }
}

/// Joining from the front: the first part, the separator, then the rest.
pub proof fn lemma_joined_from_front(
    first: Seq<char>,
    rest: Seq<Seq<char>>,
    separator: Seq<char>,
)
    requires
        rest.len() > 0,
    ensures
        joined(seq![first] + rest, separator) == first + separator + joined(rest, separator),
    decreases rest.len(),
{
    let all = seq![first] + rest;
    assert(all.last() == rest.last());
    if rest.len() == 1 {
        assert(all.drop_last() =~= seq![first]);
        assert(joined(seq![first], separator) == first);
    } else {
        assert(all.drop_last() =~= seq![first] + rest.drop_last());
        lemma_joined_from_front(first, rest.drop_last(), separator);
        assert(joined(all, separator) =~= first + separator + joined(rest, separator));
    }
}

/// No piece of a split text holds the separator, and there is at least one.
pub proof fn lemma_split_pieces(text: Seq<char>, separator: char)
    ensures
        split(text, separator).len() > 0,
        forall|i: int|
            0 <= i < split(text, separator).len() ==> !(#[trigger] split(
                text,
                separator,
            )[i]).contains(separator),
    decreases text.len(),
{
    lemma_find_char(text, separator);
    let at = find_char(text, separator);
    if at < text.len() {
        let rest = text.skip(at + 1);
        lemma_split_pieces(rest, separator);
        let pieces = split(text, separator);
        assert forall|i: int| 0 <= i < pieces.len() implies !(#[trigger] pieces[i]).contains(
            separator,
        ) by {
            if i > 0 {
                assert(pieces[i] == split(rest, separator)[i - 1]);
            }
        }
    }
}

/// Splitting what was joined gives the parts back, if there is one at least and
/// none of them holds the separator.
pub proof fn law_join_then_split(parts: Seq<Seq<char>>, separator: char)
    requires
        parts.len() > 0,
        forall|i: int| 0 <= i < parts.len() ==> !(#[trigger] parts[i]).contains(separator),
    ensures
        split(joined(parts, seq![separator]), separator) == parts,
    decreases parts.len(),
{
    let first = parts[0];
    assert(!first.contains(separator));
    if parts.len() == 1 {
        assert forall|i: int| 0 <= i < first.len() implies first[i] != separator by {
            assert(first.contains(first[i]));
        }
        lemma_find_char_is(first, separator, first.len() as int);
        assert(parts =~= seq![first]);
    } else {
        let rest = parts.drop_first();
        assert forall|i: int| 0 <= i < rest.len() implies !(#[trigger] rest[i]).contains(
            separator,
        ) by {
            assert(rest[i] == parts[i + 1]);
        }
        law_join_then_split(rest, separator);
        assert(parts =~= seq![first] + rest);
        lemma_joined_from_front(first, rest, seq![separator]);
        let tail = joined(rest, seq![separator]);
        let text = first + seq![separator] + tail;
        assert forall|i: int| 0 <= i < first.len() implies text[i] != separator by {
            assert(first.contains(first[i]));
        }
        lemma_find_char_is(text, separator, first.len() as int);
        assert(text.take(first.len() as int) =~= first);
        assert(text.skip(first.len() as int + 1) =~= tail);
    }
}

} // verus!
