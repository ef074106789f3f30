//! What texts are split, trimmed, joined and changed to.

use vstd::prelude::*;

use crate::decimal::{digit_value, is_numeral, numeral, numeral_value, parsed, without_plus};
use crate::text::{
    ascii_lower, ascii_upper, is_digit, joined, lemma_find_char_is, lines, lowered, replaced, split,
    trim_end, trim_start, trimmed, unquoted, uppered, white_space,
};

verus! {

// ---------------------------------------------------------------------------
// Case

/// The upper-case letters of ASCII.
pub open spec fn upper_letters() -> Seq<char> {
    "ABCDEFGHIJKLMNOPQRSTUVWXYZ"@
}

/// The lower-case letters of ASCII.
pub open spec fn lower_letters() -> Seq<char> {
    "abcdefghijklmnopqrstuvwxyz"@
}

/// A letter has its place in the alphabet in both cases. Nothing but letters is
/// changed by changing the case, and nothing changes its place in the text.
pub proof fn law_case_changes_letters_only(text: Seq<char>, i: int, letter: int)
    requires
        0 <= i < text.len(),
        0 <= letter < 26,
    ensures
        lowered(text).len() == text.len() && uppered(text).len() == text.len(),
        text[i] == upper_letters()[letter] ==> lowered(text)[i] == lower_letters()[letter],
        text[i] == lower_letters()[letter] ==> uppered(text)[i] == upper_letters()[letter],
        !upper_letters().contains(text[i]) ==> lowered(text)[i] == text[i],
        !lower_letters().contains(text[i]) ==> uppered(text)[i] == text[i],
{
    reveal_strlit("ABCDEFGHIJKLMNOPQRSTUVWXYZ");
    reveal_strlit("abcdefghijklmnopqrstuvwxyz");
    let c = text[i];
    assert(upper_letters().len() == 26 && lower_letters().len() == 26);
    assert(upper_letters()[letter] as u32 == 'A' as u32 + letter);
    assert(lower_letters()[letter] as u32 == 'a' as u32 + letter);
    if 'A' <= c <= 'Z' {
        let k = c as u32 - 'A' as u32;
        assert(upper_letters()[k] as u32 == 'A' as u32 + k);
        assert(upper_letters().contains(c));
    }
    if 'a' <= c <= 'z' {
        let k = c as u32 - 'a' as u32;
        assert(lower_letters()[k] as u32 == 'a' as u32 + k);
        assert(lower_letters().contains(c));
    }
    assert(lowered(text)[i] == ascii_lower(c));
    assert(uppered(text)[i] == ascii_upper(c));
}

/// Replacing a character changes that character alone.
pub proof fn law_replacing_changes_one_character(text: Seq<char>, from: char, to: char, i: int)
    requires
        0 <= i < text.len(),
    ensures
        replaced(text, from, to).len() == text.len(),
        text[i] == from ==> replaced(text, from, to)[i] == to,
        text[i] != from ==> replaced(text, from, to)[i] == text[i],
{
}

// ---------------------------------------------------------------------------
// Trimming

/// Whether every character of a text is white space.
pub open spec fn is_blank(text: Seq<char>) -> bool {
    forall|i: int| 0 <= i < text.len() ==> white_space(#[trigger] text[i])
}

/// Whether every character of a text is a double quote.
pub open spec fn is_quotes(text: Seq<char>) -> bool {
    forall|i: int| 0 <= i < text.len() ==> #[trigger] text[i] == '"'
}

/// The characters that are trimmed are the 25 of Unicode's white space.
pub proof fn law_white_space_is_unicodes(c: char)
    ensures
        white_space(c)
            <==> "\u{9}\u{a}\u{b}\u{c}\u{d}\u{20}\u{85}\u{a0}\u{1680}\u{2000}\u{2001}\u{2002}\u{2003}\u{2004}\u{2005}\u{2006}\u{2007}\u{2008}\u{2009}\u{200a}\u{2028}\u{2029}\u{202f}\u{205f}\u{3000}"@.contains(
            c,
        ),
{
    reveal_strlit(
        "\u{9}\u{a}\u{b}\u{c}\u{d}\u{20}\u{85}\u{a0}\u{1680}\u{2000}\u{2001}\u{2002}\u{2003}\u{2004}\u{2005}\u{2006}\u{2007}\u{2008}\u{2009}\u{200a}\u{2028}\u{2029}\u{202f}\u{205f}\u{3000}",
    );
    let all =
        "\u{9}\u{a}\u{b}\u{c}\u{d}\u{20}\u{85}\u{a0}\u{1680}\u{2000}\u{2001}\u{2002}\u{2003}\u{2004}\u{2005}\u{2006}\u{2007}\u{2008}\u{2009}\u{200a}\u{2028}\u{2029}\u{202f}\u{205f}\u{3000}"@;
    assert(all.len() == 25);
    assert(forall|k: int| 0 <= k < 5 ==> all[k] as u32 == 9 + k);
    assert(all[5] == '\u{20}' && all[6] == '\u{85}' && all[7] == '\u{a0}' && all[8] == '\u{1680}');
    assert(forall|k: int| 9 <= k < 20 ==> all[k] as u32 == 0x2000 + k - 9);
    assert(all[20] == '\u{2028}' && all[21] == '\u{2029}' && all[22] == '\u{202f}');
    assert(all[23] == '\u{205f}' && all[24] == '\u{3000}');
    if '\u{9}' <= c <= '\u{d}' {
        assert(all[c as u32 - 9] == c);
    }
    if '\u{2000}' <= c <= '\u{200a}' {
        assert(all[c as u32 - 0x2000 + 9] == c);
    }
    if all.contains(c) {
        let k = choose|k: int| 0 <= k < all.len() && all[k] == c;
        assert(0 <= k < 25);
    }
}

proof fn lemma_trim_start(front: Seq<char>, text: Seq<char>, drop: spec_fn(char) -> bool)
    requires
        forall|i: int| 0 <= i < front.len() ==> drop(#[trigger] front[i]),
        text.len() > 0 ==> !drop(text[0]),
    ensures
        trim_start(front + text, drop) == text,
    decreases front.len(),
{
    let whole = front + text;
    if front.len() > 0 {
        assert(whole[0] == front[0]);
        let rest = front.drop_first();
        assert forall|i: int| 0 <= i < rest.len() implies drop(#[trigger] rest[i]) by {
            assert(rest[i] == front[i + 1]);
        }
        lemma_trim_start(rest, text, drop);
        assert(whole.drop_first() =~= rest + text);
    } else {
        assert(whole =~= text);
    }
}

proof fn lemma_trim_end(text: Seq<char>, back: Seq<char>, drop: spec_fn(char) -> bool)
    requires
        forall|i: int| 0 <= i < back.len() ==> drop(#[trigger] back[i]),
        text.len() > 0 ==> !drop(text.last()),
    ensures
        trim_end(text + back, drop) == text,
    decreases back.len(),
{
    let whole = text + back;
    if back.len() > 0 {
        assert(whole.last() == back.last());
        let rest = back.drop_last();
        assert forall|i: int| 0 <= i < rest.len() implies drop(#[trigger] rest[i]) by {
            assert(rest[i] == back[i]);
        }
        lemma_trim_end(text, rest, drop);
        assert(whole.drop_last() =~= text + rest);
    } else {
        assert(whole =~= text);
    }
}

proof fn lemma_trim_start_all(text: Seq<char>, drop: spec_fn(char) -> bool)
    requires
        forall|i: int| 0 <= i < text.len() ==> drop(#[trigger] text[i]),
    ensures
        trim_start(text, drop) == Seq::<char>::empty(),
{
    lemma_trim_start(text, Seq::empty(), drop);
    assert(text + Seq::<char>::empty() =~= text);
}

/// White space is trimmed off both ends of a text, all of it and nothing else.
pub proof fn law_trimming_takes_white_space_off(
    front: Seq<char>,
    text: Seq<char>,
    back: Seq<char>,
)
    requires
        is_blank(front),
        is_blank(back),
        text.len() > 0 ==> !white_space(text[0]) && !white_space(text.last()),
    ensures
        trimmed(front + text + back) == text,
{
    let drop = |c: char| white_space(c);
    let whole = front + text + back;
    assert(whole =~= front + (text + back));
    if text.len() > 0 {
        assert((text + back)[0] == text[0]);
        lemma_trim_start(front, text + back, drop);
        lemma_trim_end(text, back, drop);
    } else {
        assert forall|i: int| 0 <= i < whole.len() implies drop(#[trigger] whole[i]) by {
            if i < front.len() {
                assert(whole[i] == front[i]);
            } else {
                assert(whole[i] == back[i - front.len()]);
            }
        }
        lemma_trim_start_all(whole, drop);
        assert(trim_end(Seq::<char>::empty(), drop) =~= text);
    }
}

/// Double quotes are taken off both ends of a text, all of them and nothing
/// else.
pub proof fn law_unquoting_takes_quotes_off(front: Seq<char>, text: Seq<char>, back: Seq<char>)
    requires
        is_quotes(front),
        is_quotes(back),
        text.len() > 0 ==> text[0] != '"' && text.last() != '"',
    ensures
        unquoted(front + text + back) == text,
{
    let drop = |c: char| c == '"';
    let whole = front + text + back;
    assert(whole =~= front + (text + back));
    if text.len() > 0 {
        assert((text + back)[0] == text[0]);
        lemma_trim_start(front, text + back, drop);
        lemma_trim_end(text, back, drop);
    } else {
        assert forall|i: int| 0 <= i < whole.len() implies drop(#[trigger] whole[i]) by {
            if i < front.len() {
                assert(whole[i] == front[i]);
            } else {
                assert(whole[i] == back[i - front.len()]);
            }
        }
        lemma_trim_start_all(whole, drop);
        assert(trim_end(Seq::<char>::empty(), drop) =~= text);
    }
}

// ---------------------------------------------------------------------------
// Lines and pieces

/// A text is read line by line: up to the first line feed, without the carriage
/// return in front of it, then the rest. What is behind the last line feed is a
/// line as it is, if it is not empty.
pub proof fn law_lines_end_at_line_feeds(line: Seq<char>, rest: Seq<char>)
    requires
        !line.contains('\n'),
    ensures
        lines(line + seq!['\r', '\n'] + rest) == seq![line] + lines(rest),
        (line.len() > 0 ==> line.last() != '\r') ==> lines(line + seq!['\n'] + rest) == seq![line]
            + lines(rest),
        line.len() > 0 ==> lines(line) == seq![line],
        lines(Seq::<char>::empty()) == Seq::<Seq<char>>::empty(),
{
    assert forall|i: int| 0 <= i < line.len() implies line[i] != '\n' by {
        assert(line.contains(line[i]));
    }
    let long = line + seq!['\r', '\n'] + rest;
    let at = line.len() as int + 1;
    lemma_find_char_is(long, '\n', at);
    assert(long.take(at) =~= line.push('\r'));
    assert(line.push('\r').drop_last() =~= line);
    assert(long.skip(at + 1) =~= rest);
    let short = line + seq!['\n'] + rest;
    lemma_find_char_is(short, '\n', line.len() as int);
    assert(short.take(line.len() as int) =~= line);
    assert(short.skip(line.len() as int + 1) =~= rest);
    lemma_find_char_is(line, '\n', line.len() as int);
}

/// A text is split at its first separator, then behind it.
pub proof fn law_pieces_end_at_separators(piece: Seq<char>, separator: char, rest: Seq<char>)
    requires
        !piece.contains(separator),
    ensures
        split(piece, separator) == seq![piece],
        split(piece + seq![separator] + rest, separator) == seq![piece] + split(rest, separator),
{
    assert forall|i: int| 0 <= i < piece.len() implies piece[i] != separator by {
        assert(piece.contains(piece[i]));
    }
    let whole = piece + seq![separator] + rest;
    lemma_find_char_is(piece, separator, piece.len() as int);
    lemma_find_char_is(whole, separator, piece.len() as int);
    assert(whole.take(piece.len() as int) =~= piece);
    assert(whole.skip(piece.len() as int + 1) =~= rest);
}

/// Parts are joined with the separator between each two of them and nowhere
/// else.
pub proof fn law_joining_separates_parts(
    parts: Seq<Seq<char>>,
    part: Seq<char>,
    separator: Seq<char>,
)
    ensures
        joined(Seq::<Seq<char>>::empty(), separator) == Seq::<char>::empty(),
        joined(seq![part], separator) == part,
        parts.len() > 0 ==> joined(parts.push(part), separator) == joined(parts, separator)
            + separator + part,
{
    if parts.len() > 0 {
        assert(parts.push(part).drop_last() =~= parts);
    }
}

// ---------------------------------------------------------------------------
// Numbers

/// Whether a character is one of the ten digits.
pub open spec fn is_decimal(c: char) -> bool {
    "0123456789"@.contains(c)
}

proof fn lemma_digits(c: char)
    ensures
        is_decimal(c) <==> is_digit(c),
        is_digit(c) ==> digit_value(c) < 10 && "0123456789"@[digit_value(c) as int] == c,
{
    reveal_strlit("0123456789");
    let digits = "0123456789"@;
    assert(digits.len() == 10);
    assert(forall|k: int| 0 <= k < 10 ==> digits[k] as u32 == '0' as u32 + k);
    if is_digit(c) {
        assert(digits[digit_value(c) as int] == c);
    }
    if is_decimal(c) {
        let k = choose|k: int| 0 <= k < digits.len() && digits[k] == c;
        assert(digits[k] as u32 == '0' as u32 + k);
    }
}

/// A text is read as a number only if it is made of digits, one at least, with a
/// plus sign in front or none, and then within the limit.
pub proof fn law_numbers_are_digits(text: Seq<char>, limit: nat)
    ensures
        parsed(text, limit) matches Some(value) ==> {
            let digits = if text.len() > 0 && text[0] == '+' {
                text.drop_first()
            } else {
                text
            };
            &&& value <= limit
            &&& digits.len() > 0
            &&& forall|i: int| 0 <= i < digits.len() ==> is_decimal(#[trigger] digits[i])
        },
{
    if parsed(text, limit) is Some {
        let digits = without_plus(text);
        assert forall|i: int| 0 <= i < digits.len() implies is_decimal(#[trigger] digits[i]) by {
            lemma_digits(digits[i]);
        }
    }
}

/// A single digit stands for its place among the digits, and a digit behind a
/// number for that many more than ten times the number. What goes over the limit
/// is no number.
pub proof fn law_numbers_are_read_in_tens(text: Seq<char>, digit: int, limit: nat)
    requires
        0 <= digit < 10,
    ensures
        parsed(seq!["0123456789"@[digit]], limit) == if digit <= limit {
            Some(digit as nat)
        } else {
            None
        },
        parsed(text, limit) matches Some(value) ==> parsed(
            text.push("0123456789"@[digit]),
            limit,
        ) == if 10 * value + digit <= limit {
            Some((10 * value + digit) as nat)
        } else {
            None
        },
{
    reveal_strlit("0123456789");
    let c = "0123456789"@[digit];
    assert(c as u32 == '0' as u32 + digit);
    assert(digit_value(c) == digit);
    let single = seq![c];
    assert(without_plus(single) == single);
    assert(single.drop_last() =~= Seq::<char>::empty());
    assert(numeral_value(single.drop_last()) == 0);
    assert(is_numeral(single));
    if parsed(text, limit) is Some {
        let digits = without_plus(text);
        let more = text.push(c);
        assert(without_plus(more) =~= digits.push(c));
        assert(digits.push(c).drop_last() =~= digits);
        assert(is_numeral(digits.push(c)));
    }
}

/// A plus sign in front of a number changes nothing.
pub proof fn law_plus_sign_changes_nothing(text: Seq<char>, limit: nat)
    requires
        text.len() > 0 ==> text[0] != '+',
    ensures
        parsed(seq!['+'] + text, limit) == parsed(text, limit),
{
    assert((seq!['+'] + text).drop_first() =~= text);
}

/// A number is written without a plus sign, and with no zero in front of it but
/// its only digit.
pub proof fn law_numbers_are_written_shortest(value: nat)
    ensures
        numeral(value).len() > 0,
        numeral(value)[0] != '+',
        numeral(value)[0] == '0' ==> value == 0 && numeral(value).len() == 1,
    decreases value,
{
    if value >= 10 {
        law_numbers_are_written_shortest(value / 10);
        assert(numeral(value)[0] == numeral(value / 10)[0]);
    }
}

} // verus!
