//! What holds of every rewritten response file.

use vstd::prelude::*;

use crate::erratum::{holds_erratum, is_erratum_argument, plain_line, plain_link_text};
use crate::musl::{musl_line, musl_link_text, path_pieces};
use crate::response::{
    in_quotes, is_quoted, line_definition, line_value, path_of, redirected, requested_library,
    requoted, windows_line, windows_link_line,
};
use crate::text::{
    find_char, joined, lemma_find_char, lemma_find_char_is, lemma_joined_from_front, lines, lowered,
    replaced, trim_end, trim_start, trimmed, unquoted, white_space, without_return,
};
use crate::windows::{definition_file, is_image_base_argument, is_runtime_argument, linker_argument};

verus! {

// ---------------------------------------------------------------------------
// Lines

/// Whether a text can be a line that is read back as it was written.
pub open spec fn is_single_line(line: Seq<char>) -> bool {
    !line.contains('\n') && (line.len() > 0 ==> line.last() != '\r')
}

/// Lines that are written with a line feed behind each are read back as they
/// were, if there is one at least.
pub proof fn law_written_lines_read_back(list: Seq<Seq<char>>)
    requires
        list.len() > 0,
        forall|i: int| 0 <= i < list.len() ==> is_single_line(#[trigger] list[i]),
    ensures
        lines(joined(list, "\n"@) + "\n"@) == list,
    decreases list.len(),
{
    reveal_strlit("\n");
    assert("\n"@ =~= seq!['\n']);
    let text = joined(list, "\n"@) + "\n"@;
    let first = list[0];
    let rest = list.drop_first();
    let tail = if rest.len() == 0 {
        seq![]
    } else {
        joined(rest, "\n"@) + "\n"@
    };
    assert(list =~= seq![first] + rest);
    if rest.len() > 0 {
        lemma_joined_from_front(first, rest, "\n"@);
        assert forall|i: int| 0 <= i < rest.len() implies is_single_line(#[trigger] rest[i]) by {
            assert(rest[i] == list[i + 1]);
        }
        law_written_lines_read_back(rest);
    } else {
        assert(lines(tail) =~= rest);
    }
    assert(text =~= first + seq!['\n'] + tail);
    assert forall|i: int| 0 <= i < first.len() implies text[i] != '\n' by {
        assert(first.contains(first[i]));
    }
    lemma_find_char_is(text, '\n', first.len() as int);
    assert(text.take(first.len() as int) =~= first);
    assert(text.skip(first.len() as int + 1) =~= tail);
    assert(is_single_line(first));
    assert(lines(text) =~= seq![first] + lines(tail));
}

/// What is read of a text without carriage returns are single lines.
proof fn lemma_lines_are_single(text: Seq<char>)
    requires
        !text.contains('\r'),
    ensures
        forall|i: int| 0 <= i < lines(text).len() ==> is_single_line(#[trigger] lines(text)[i]),
    decreases text.len(),
{
    lemma_find_char(text, '\n');
    let at = find_char(text, '\n');
    if text.len() > 0 {
        let first = text.take(at);
        assert forall|i: int| 0 <= i < first.len() implies first[i] != '\n' && first[i]
            != '\r' by {
            assert(first[i] == text[i]);
            assert(text.contains(text[i]));
        }
        assert(without_return(first) == first);
        assert(is_single_line(first));
        if at == text.len() {
            assert(first =~= text);
            assert(lines(text) =~= seq![first]);
        } else {
            let rest = text.skip(at + 1);
            assert(!rest.contains('\r')) by {
                if rest.contains('\r') {
                    let k = choose|k: int| 0 <= k < rest.len() && rest[k] == '\r';
                    assert(text[at + 1 + k] == '\r');
                }
            }
            lemma_lines_are_single(rest);
            assert forall|i: int| 0 <= i < lines(text).len() implies is_single_line(
                #[trigger] lines(text)[i],
            ) by {
                if i > 0 {
                    assert(lines(text)[i] == lines(rest)[i - 1]);
                }
            }
        }
    }
}

// ---------------------------------------------------------------------------
// musl

/// The lines that stay of a response file for a musl link.
spec fn kept_lines(list: Seq<Seq<char>>) -> Seq<Seq<char>> {
    list.filter_map(|line: Seq<char>| musl_line(line))
}

/// The lines that stay are among those that were there, as they were.
proof fn lemma_kept_lines(list: Seq<Seq<char>>)
    requires
        forall|i: int| 0 <= i < list.len() ==> is_single_line(#[trigger] list[i]),
    ensures
        forall|i: int|
            0 <= i < kept_lines(list).len() ==> {
                &&& is_single_line(#[trigger] kept_lines(list)[i])
                &&& musl_line(kept_lines(list)[i]) is Some
            },
    decreases list.len(),
{
    reveal(Seq::filter_map);
    if list.len() > 0 {
        let front = list.drop_last();
        assert forall|i: int| 0 <= i < front.len() implies is_single_line(#[trigger] front[i]) by {
            assert(front[i] == list[i]);
        }
        lemma_kept_lines(front);
        assert(is_single_line(list.last()));
        assert forall|i: int| 0 <= i < kept_lines(list).len() implies {
            &&& is_single_line(#[trigger] kept_lines(list)[i])
            &&& musl_line(kept_lines(list)[i]) is Some
        } by {
            if i < kept_lines(front).len() {
                assert(kept_lines(list)[i] == kept_lines(front)[i]);
            } else {
                assert(kept_lines(list)[i] == list.last());
            }
        }
    }
}

/// Of lines that all stay, all stay.
proof fn lemma_all_kept(list: Seq<Seq<char>>)
    requires
        forall|i: int| 0 <= i < list.len() ==> musl_line(#[trigger] list[i]) is Some,
    ensures
        kept_lines(list) == list,
    decreases list.len(),
{
    reveal(Seq::filter_map);
    if list.len() > 0 {
        let front = list.drop_last();
        assert forall|i: int| 0 <= i < front.len() implies musl_line(
            #[trigger] front[i],
        ) is Some by {
            assert(front[i] == list[i]);
        }
        lemma_all_kept(front);
        assert(musl_line(list.last()) is Some);
        assert(front.push(list.last()) =~= list);
    } else {
        assert(kept_lines(list) =~= list);
    }
}

/// An empty line stays.
proof fn lemma_empty_line_stays()
    ensures
        musl_line(seq![]) is Some,
{
    let none: Seq<char> = seq![];
    assert(line_value(none) == none);
    reveal_strlit("-nostartfiles");
    reveal_strlit("-Wl,--fix-cortex-a53-843419");
    assert("-nostartfiles"@.len() == 13 && "-Wl,--fix-cortex-a53-843419"@.len() == 27);
    assert(replaced(none, '\\', '/') =~= none);
    assert(path_pieces(none).len() == 1);
}

/// What a response file is rewritten to for a musl link is not changed by being
/// rewritten once more. Left out are files with carriage returns, one of which
/// belongs to the end of a line.
pub proof fn law_musl_rewrite_is_stable(original: Seq<char>)
    requires
        !original.contains('\r'),
    ensures
        musl_link_text(musl_link_text(original) + "\n"@) == musl_link_text(original),
{
    let kept = kept_lines(lines(original));
    let text = joined(kept, "\n"@);
    lemma_lines_are_single(original);
    lemma_kept_lines(lines(original));
    if kept.len() > 0 {
        law_written_lines_read_back(kept);
        lemma_all_kept(kept);
    } else {
        let none: Seq<char> = seq![];
        reveal_strlit("\n");
        let whole = text + "\n"@;
        assert(whole =~= seq!['\n']);
        lemma_find_char_is(whole, '\n', 0);
        assert(whole.take(0) =~= none);
        assert(lines(whole.skip(1)) =~= seq![]);
        assert(lines(whole) =~= seq![none]);
        lemma_empty_line_stays();
        lemma_all_kept(seq![none]);
        assert(joined(seq![none], "\n"@) == none);
    }
}

// ---------------------------------------------------------------------------
// The Cortex-A53 erratum

/// The lines that stay of a response file that only loses the switch.
spec fn plain_lines(list: Seq<Seq<char>>) -> Seq<Seq<char>> {
    list.filter_map(|line: Seq<char>| plain_line(line))
}

proof fn lemma_plain_lines(list: Seq<Seq<char>>)
    requires
        forall|i: int| 0 <= i < list.len() ==> is_single_line(#[trigger] list[i]),
    ensures
        forall|i: int|
            0 <= i < plain_lines(list).len() ==> {
                &&& is_single_line(#[trigger] plain_lines(list)[i])
                &&& !is_erratum_argument(line_value(plain_lines(list)[i]))
            },
    decreases list.len(),
{
    reveal(Seq::filter_map);
    if list.len() > 0 {
        let front = list.drop_last();
        assert forall|i: int| 0 <= i < front.len() implies is_single_line(#[trigger] front[i]) by {
            assert(front[i] == list[i]);
        }
        lemma_plain_lines(front);
        assert(is_single_line(list.last()));
        assert forall|i: int| 0 <= i < plain_lines(list).len() implies {
            &&& is_single_line(#[trigger] plain_lines(list)[i])
            &&& !is_erratum_argument(line_value(plain_lines(list)[i]))
        } by {
            if i < plain_lines(front).len() {
                assert(plain_lines(list)[i] == plain_lines(front)[i]);
            } else {
                assert(plain_lines(list)[i] == list.last());
            }
        }
    }
}

/// What a response file is rewritten to for a link for neither Windows nor musl
/// does not hold the switch any more. Left out are files with carriage returns,
/// one of which belongs to the end of a line.
pub proof fn law_plain_rewrite_holds_no_erratum(original: Seq<char>)
    requires
        !original.contains('\r'),
    ensures
        !holds_erratum(lines(plain_link_text(original))),
{
    let kept = plain_lines(lines(original));
    lemma_lines_are_single(original);
    lemma_plain_lines(lines(original));
    if kept.len() > 0 {
        law_written_lines_read_back(kept);
    } else {
        let none: Seq<char> = seq![];
        reveal_strlit("\n");
        reveal_strlit("-Wl,--fix-cortex-a53-843419");
        let whole = joined(kept, "\n"@) + "\n"@;
        assert(whole =~= seq!['\n']);
        lemma_find_char_is(whole, '\n', 0);
        assert(whole.take(0) =~= none);
        assert(lines(whole.skip(1)) =~= seq![]);
        assert(lines(whole) =~= seq![none]);
        assert(line_value(none) == none);
        assert("-Wl,--fix-cortex-a53-843419"@.len() == 27);
    }
}

/// The switch for the erratum leaves the response files of every kind of link
/// that cannot take it.
pub proof fn law_erratum_leaves_every_response(
    line: Seq<char>,
    directories: Seq<Seq<(Seq<char>, Seq<char>)>>,
    copies: Seq<(Seq<char>, Seq<char>)>,
    keep_runtime: bool,
)
    requires
        is_erratum_argument(line_value(line)),
    ensures
        windows_link_line(line, directories, copies, keep_runtime, false) is None,
        musl_line(line) is None,
        plain_line(line) is None,
{
    if is_runtime_argument(line_value(line)) {
        lemma_runtime_is_no_erratum(line_value(line));
    }
}

pub(crate) proof fn lemma_runtime_is_no_erratum(argument: Seq<char>)
    requires
        is_runtime_argument(argument),
    ensures
        !is_erratum_argument(argument),
{
    reveal_strlit("-nodefaultlibs");
    reveal_strlit("-lgcc_eh");
    reveal_strlit("-l:libpthread.a");
    reveal_strlit("-lmsvcrt");
    reveal_strlit("-lmingwex");
    reveal_strlit("-lmingw32");
    reveal_strlit("-lgcc");
    reveal_strlit("-Wl,--fix-cortex-a53-843419");
    assert("-Wl,--fix-cortex-a53-843419"@.len() == 27);
}

// ---------------------------------------------------------------------------
// Windows

pub(crate) proof fn lemma_no_definition(argument: Seq<char>)
    requires
        is_runtime_argument(argument) || is_image_base_argument(argument) || is_erratum_argument(
            argument,
        ),
    ensures
        definition_file(argument) is None,
{
    reveal_strlit("-Wl,");
    reveal_strlit(".def");
    reveal_strlit("-nodefaultlibs");
    reveal_strlit("-lgcc_eh");
    reveal_strlit("-l:libpthread.a");
    reveal_strlit("-lmsvcrt");
    reveal_strlit("-lmingwex");
    reveal_strlit("-lmingw32");
    reveal_strlit("-lgcc");
    reveal_strlit("-Wl,--enable-auto-image-base");
    reveal_strlit("-Wl,--disable-auto-image-base");
    reveal_strlit("--enable-auto-image-base");
    reveal_strlit("--disable-auto-image-base");
    reveal_strlit("-Wl,--fix-cortex-a53-843419");
    assert("-Wl,"@.len() == 4 && "-Wl,"@[1] == 'W' && ".def"@.len() == 4 && ".def"@[3] == 'f');
    if definition_file(argument) is Some {
        assert(argument.take(4)[1] == argument[1]);
        let rest = lowered(argument.skip(4));
        assert(rest.skip(rest.len() - 4)[3] == rest.last());
        assert(argument.last() == 'e' || argument.last() == '9');
    }
}

/// A runtime that rustc asks for and an image-base switch do not reach Zig's
/// linker through a response file. Where the runtime is kept, its lines stay.
pub proof fn law_response_leaves_the_runtime_to_zig(
    line: Seq<char>,
    directories: Seq<Seq<(Seq<char>, Seq<char>)>>,
    copies: Seq<(Seq<char>, Seq<char>)>,
    keep_runtime: bool,
    keep_erratum: bool,
)
    ensures
        is_image_base_argument(line_value(line)) ==> windows_link_line(
            line,
            directories,
            copies,
            keep_runtime,
            keep_erratum,
        ) is None,
        is_runtime_argument(line_value(line)) ==> windows_link_line(
            line,
            directories,
            copies,
            keep_runtime,
            keep_erratum,
        ) == if keep_runtime {
            Some(line)
        } else {
            None
        },
{
    let value = line_value(line);
    if is_runtime_argument(value) || is_image_base_argument(value) {
        lemma_no_definition(value);
        assert(redirected(line, copies) == line);
    }
    if is_image_base_argument(value) {
        lemma_image_base_is_no_runtime(value);
    }
}

pub(crate) proof fn lemma_image_base_is_no_runtime(argument: Seq<char>)
    requires
        is_image_base_argument(argument),
    ensures
        !is_runtime_argument(argument),
{
    reveal_strlit("-nodefaultlibs");
    reveal_strlit("-lgcc_eh");
    reveal_strlit("-l:libpthread.a");
    reveal_strlit("-lmsvcrt");
    reveal_strlit("-lmingwex");
    reveal_strlit("-lmingw32");
    reveal_strlit("-lgcc");
    reveal_strlit("-Wl,--enable-auto-image-base");
    reveal_strlit("-Wl,--disable-auto-image-base");
    reveal_strlit("--enable-auto-image-base");
    reveal_strlit("--disable-auto-image-base");
    assert(argument.len() > 20);
    assert("-nodefaultlibs"@.len() == 14 && "-lgcc_eh"@.len() == 8);
    assert("-l:libpthread.a"@.len() == 15 && "-lmsvcrt"@.len() == 8);
    assert("-lmingwex"@.len() == 9 && "-lmingw32"@.len() == 9 && "-lgcc"@.len() == 5);
}

/// Whether a text neither starts nor ends with what is trimmed off a line.
spec fn is_bare(text: Seq<char>) -> bool {
    &&& text.len() > 0
    &&& !white_space(text[0]) && text[0] != '"'
    &&& !white_space(text.last()) && text.last() != '"'
}

proof fn lemma_bare_value(line: Seq<char>, text: Seq<char>)
    requires
        is_bare(text),
    ensures
        line_value(requoted(line, text)) == text,
        is_quoted(requoted(line, text)) == is_quoted(line),
{
    reveal_strlit("\"");
    let quoted = in_quotes(text);
    reveal_with_fuel(trim_start, 2);
    reveal_with_fuel(trim_end, 2);
    assert(trimmed(text) == text);
    assert(unquoted(text) == text);
    assert(quoted[0] == '"' && quoted.last() == '"');
    assert(trimmed(quoted) == quoted);
    let open = quoted.drop_first();
    assert(open[0] == text[0] && open.last() == '"');
    assert(open.drop_last() =~= text);
    assert(unquoted(quoted) == text);
}

/// A module-definition file that was copied is linked by its copy: the line
/// that names the file names the copy as an input of Zig's linker, in quotes if
/// the file was.
pub proof fn law_copy_is_linked_for_its_original(
    line: Seq<char>,
    copy: Seq<char>,
    directories: Seq<Seq<(Seq<char>, Seq<char>)>>,
    copies: Seq<(Seq<char>, Seq<char>)>,
    keep_runtime: bool,
    keep_erratum: bool,
)
    requires
        line_definition(line) is Some,
        path_of(copies, line_definition(line)->0) == Some(copy),
        ".def"@.is_suffix_of(lowered(copy)),
    ensures
        windows_link_line(line, directories, copies, keep_runtime, keep_erratum) == Some(
            requoted(line, copy),
        ),
{
    let argument = "-Wl,"@ + copy;
    reveal_strlit("-Wl,");
    reveal_strlit(".def");
    reveal_strlit("-l");
    assert("-Wl,"@[0] == '-' && "-Wl,"@[1] == 'W' && ".def"@[3] == 'f' && "-l"@[1] == 'l');
    let low = lowered(copy);
    assert(low.skip(low.len() - 4)[3] == low.last());
    assert(argument.last() == copy.last());
    assert(argument[0] == '-');
    assert(is_bare(argument));
    lemma_bare_value(line, argument);
    assert(argument.take(4) =~= "-Wl,"@);
    assert(argument.skip(4) =~= copy);
    assert(definition_file(argument) == Some(copy));
    if is_runtime_argument(argument) || is_image_base_argument(argument) {
        lemma_no_definition(argument);
    }
    if is_runtime_argument(line_value(line)) || is_erratum_argument(line_value(line)) {
        lemma_no_definition(line_value(line));
    }
    let changed = requoted(line, argument);
    assert(redirected(line, copies) == changed);
    assert(argument.take(2)[1] == 'W');
    assert(requested_library(changed) is None);
    assert(linker_argument(argument) == copy);
    assert(copy.len() != argument.len());
    assert(windows_line(changed, directories) == Some(requoted(changed, copy)));
}

} // verus!
