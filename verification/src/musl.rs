//! Linking for musl: Zig adds the startup objects itself.

use vstd::prelude::*;

use crate::erratum::{is_cortex_erratum_argument, is_erratum_argument};
use crate::response::{line_value, replace_response, replacement, value_of};
use crate::text::{
    contains, ends_with, joined, lines, lines_of, position_of, replace_char, replaced, same, split,
    split_at_char, starts_with, texts,
};

verus! {

/// Whether Zig links for musl when it is given this target.
pub open spec fn links_musl(spelling: Seq<char>) -> bool {
    contains(spelling, "-musl"@)
}

/// Whether Zig links for musl when it is given this target.
pub fn is_musl_zig_target(spelling: &str) -> (musl: bool)
    ensures
        musl == links_musl(spelling@),
{
    position_of(spelling, "-musl").is_some()
}

/// The pieces of a path between its separators, of either kind.
pub open spec fn path_pieces(path: Seq<char>) -> Seq<Seq<char>> {
    split(replaced(path, '\\', '/'), '/')
}

/// Whether a file name is that of one of the C runtime's startup objects.
pub open spec fn is_startup_name(name: Seq<char>) -> bool {
    ||| name == "crt1.o"@
    ||| name == "Scrt1.o"@
    ||| name == "rcrt1.o"@
    ||| name == "crti.o"@
    ||| name == "crtn.o"@
    ||| "crtbegin"@.is_prefix_of(name) && ".o"@.is_suffix_of(name)
    ||| "crtend"@.is_prefix_of(name) && ".o"@.is_suffix_of(name)
}

/// Whether a file name is that of one of the C runtime's startup objects.
fn names_startup_object(name: &str) -> (startup: bool)
    ensures
        startup == is_startup_name(name@),
{
    same(name, "crt1.o") || same(name, "Scrt1.o") || same(name, "rcrt1.o") || same(name, "crti.o")
        || same(name, "crtn.o") || ((starts_with(name, "crtbegin") || starts_with(name, "crtend"))
        && ends_with(name, ".o"))
}

/// Whether an argument is one of the startup objects that rustc ships: one of
/// the C runtime's in a directory `self-contained`.
pub open spec fn is_startup_object(argument: Seq<char>) -> bool {
    let pieces = path_pieces(argument);
    &&& pieces.len() >= 2
    &&& pieces[pieces.len() - 2] == "self-contained"@
    &&& is_startup_name(pieces.last())
}

/// Whether an argument of a musl link is about startup objects that Zig adds
/// itself.
pub open spec fn is_startup_argument(argument: Seq<char>) -> bool {
    argument == "-nostartfiles"@ || is_startup_object(argument)
}

/// Whether an argument of a musl link is about startup objects that Zig adds
/// itself.
pub fn is_musl_startup_argument(argument: &str) -> (startup: bool)
    ensures
        startup == is_startup_argument(argument@),
{
    if same(argument, "-nostartfiles") {
        return true;
    }
    let path = replace_char(argument, '\\', '/');
    let pieces = split_at_char(path.as_str(), '/');
    let ghost list = texts(pieces@);
    if pieces.len() < 2 {
        return false;
    }
    assert(list[list.len() - 2] == pieces@[pieces@.len() - 2]@);
    assert(list.last() == pieces@[pieces@.len() - 1]@);
    same(pieces[pieces.len() - 2].as_str(), "self-contained") && names_startup_object(
        pieces[pieces.len() - 1].as_str(),
    )
}

/// A line of a response file for a musl link, if it stays.
pub open spec fn musl_line(line: Seq<char>) -> Option<Seq<char>> {
    let value = line_value(line);
    if is_startup_argument(value) || is_erratum_argument(value) {
        None
    } else {
        Some(line)
    }
}

/// The lines of a response file for a musl link, joined by line feeds.
pub open spec fn musl_link_text(original: Seq<char>) -> Seq<char> {
    joined(lines(original).filter_map(|line: Seq<char>| musl_line(line)), "\n"@)
}

/// What the contents of a response file are replaced by for a musl link.
pub fn rewrite_musl_response(original: &str) -> (result: Option<String>)
    ensures
        match result {
            Some(result) => replacement(original@, musl_link_text(original@)) == Some(result@),
            None => replacement(original@, musl_link_text(original@)) is None,
        },
{
    let list = lines_of(original);
    let ghost all = texts(list@);
    let ghost pick = |line: Seq<char>| musl_line(line);
    let mut kept: Vec<String> = Vec::new();
    let mut i: usize = 0;
    while i < list.len()
        invariant
            i <= list@.len(),
            all == texts(list@),
            pick == (|line: Seq<char>| musl_line(line)),
            texts(kept@) == all.take(i as int).filter_map(pick),
        decreases list@.len() - i,
    {
        proof {
            assert(all.take(i + 1).drop_last() =~= all.take(i as int));
            assert(all.take(i + 1).last() == list@[i as int]@);
            reveal(Seq::filter_map);
        }
        let ghost before = texts(kept@);
        let value = value_of(list[i].as_str());
        if !is_musl_startup_argument(value.as_str()) && !is_cortex_erratum_argument(
            value.as_str(),
        ) {
            kept.push(list[i].clone());
            assert(texts(kept@) =~= before.push(list@[i as int]@));
        }
        i += 1;
    }
    assert(all.take(i as int) =~= all);
    replace_response(original, &kept)
}

} // verus!
