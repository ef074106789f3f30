//! Linking for Windows: what rustc asks a MinGW linker for and Zig brings
//! itself, module-definition files, and linker response files.

use vstd::prelude::*;
use vstd::string::StringExecFns;

use crate::text::{
    after_prefix, ends_with, lemma_find_char_is, lines, lines_of, lowered, same, same_ignoring_case,
    texts, to_lowered, trim, trim_end, trim_start, trimmed,
};

verus! {

// ---------------------------------------------------------------------------
// Single arguments

/// The runtime libraries that rustc links for a GNU Windows target, and the
/// switch with which it keeps the linker from adding its own.
pub open spec fn is_runtime_argument(argument: Seq<char>) -> bool {
    ||| argument == "-nodefaultlibs"@
    ||| argument == "-lgcc_eh"@
    ||| argument == "-l:libpthread.a"@
    ||| argument == "-lmsvcrt"@
    ||| argument == "-lmingwex"@
    ||| argument == "-lmingw32"@
    ||| argument == "-lgcc"@
}

/// Whether an argument asks for a runtime that Zig brings itself.
pub fn is_windows_runtime_argument(argument: &str) -> (runtime: bool)
    ensures
        runtime == is_runtime_argument(argument@),
{
    same(argument, "-nodefaultlibs") || same(argument, "-lgcc_eh") || same(
        argument,
        "-l:libpthread.a",
    ) || same(argument, "-lmsvcrt") || same(argument, "-lmingwex") || same(argument, "-lmingw32")
        || same(argument, "-lgcc")
}

/// MinGW's switches for an automatic image base, which Zig's linker ignores
/// with a warning.
pub open spec fn is_image_base_argument(argument: Seq<char>) -> bool {
    ||| argument == "-Wl,--enable-auto-image-base"@
    ||| argument == "-Wl,--disable-auto-image-base"@
    ||| argument == "--enable-auto-image-base"@
    ||| argument == "--disable-auto-image-base"@
}

/// Whether an argument is one of MinGW's switches for an automatic image base.
pub fn is_windows_auto_image_base_argument(argument: &str) -> (image_base: bool)
    ensures
        image_base == is_image_base_argument(argument@),
{
    same(argument, "-Wl,--enable-auto-image-base") || same(
        argument,
        "-Wl,--disable-auto-image-base",
    ) || same(argument, "--enable-auto-image-base") || same(argument, "--disable-auto-image-base")
}

/// The module-definition file that an argument hands to the linker: what
/// follows `-Wl,` where it ends in `.def` in any case.
pub open spec fn definition_file(argument: Seq<char>) -> Option<Seq<char>> {
    let rest = argument.skip("-Wl,"@.len() as int);
    if "-Wl,"@.is_prefix_of(argument) && ".def"@.is_suffix_of(lowered(rest)) {
        Some(rest)
    } else {
        None
    }
}

/// The module-definition file that an argument hands to the linker.
pub fn windows_definition_file(argument: &str) -> (file: Option<String>)
    ensures
        match file {
            Some(file) => definition_file(argument@) == Some(file@),
            None => definition_file(argument@) is None,
        },
{
    match after_prefix(argument, "-Wl,") {
        Some(rest) => {
            let lower = to_lowered(rest.as_str());
            if ends_with(lower.as_str(), ".def") {
                Some(rest)
            } else {
                None
            }
        },
        None => None,
    }
}

/// A linker argument as Zig takes it: a module-definition file is an input of
/// its own, everything else stays.
pub open spec fn linker_argument(argument: Seq<char>) -> Seq<char> {
    match definition_file(argument) {
        Some(file) => file,
        None => argument,
    }
}

/// A linker argument as Zig takes it.
pub fn transform_windows_linker_argument(argument: &str) -> (result: String)
    ensures
        result@ == linker_argument(argument@),
{
    match windows_definition_file(argument) {
        Some(file) => file,
        None => argument.to_owned(),
    }
}

// ---------------------------------------------------------------------------
// Module-definition files

/// Whether a line of a module-definition file starts its exports.
pub open spec fn is_exports_line(line: Seq<char>) -> bool {
    lowered(trimmed(line)) == lowered("EXPORTS"@)
}

/// Whether a line of a module-definition file is empty or a comment.
pub open spec fn is_blank_line(line: Seq<char>) -> bool {
    trimmed(line).len() == 0 || trimmed(line)[0] == ';'
}

/// Whether a module-definition file has an exports section with nothing in it.
pub open spec fn exports_nothing(list: Seq<Seq<char>>) -> bool {
    &&& exists|i: int| 0 <= i < list.len() && is_exports_line(#[trigger] list[i])
    &&& forall|i: int, j: int|
        0 <= i < j < list.len() && is_exports_line(#[trigger] list[i]) ==> is_exports_line(
            #[trigger] list[j],
        ) || is_blank_line(list[j])
}

/// The contents that a module-definition file gets in place of its own, if it
/// exports nothing: Zig's linker needs one export.
pub open spec fn with_fallback_export(contents: Seq<char>) -> Option<Seq<char>> {
    if exports_nothing(lines(contents)) {
        Some("EXPORTS\n    DllMainCRTStartup\n"@)
    } else {
        None
    }
}

/// The contents that a module-definition file gets in place of its own, if it
/// exports nothing.
pub fn windows_definition_with_fallback_export(contents: &str) -> (patched: Option<String>)
    ensures
        match patched {
            Some(patched) => with_fallback_export(contents@) == Some(patched@),
            None => with_fallback_export(contents@) is None,
        },
{
    let list = lines_of(contents);
    let ghost all = texts(list@);
    let mut after_exports = false;
    let mut i: usize = 0;
    while i < list.len()
        invariant
            i <= list@.len(),
            all == texts(list@),
            all == lines(contents@),
            after_exports == (exists|k: int| 0 <= k < i && is_exports_line(#[trigger] all[k])),
            forall|k: int, j: int|
                0 <= k < j < i && is_exports_line(#[trigger] all[k]) ==> is_exports_line(
                    #[trigger] all[j],
                ) || is_blank_line(all[j]),
        decreases list@.len() - i,
    {
        assert(all[i as int] == list@[i as int]@);
        let value = trim(list[i].as_str());
        if same_ignoring_case(value.as_str(), "EXPORTS") {
            after_exports = true;
            assert(is_exports_line(all[i as int]));
        } else {
            let blank = value.as_str().is_empty() || starts_with_char(value.as_str(), ';');
            if after_exports && !blank {
                return None;
            }
        }
        i += 1;
    }
    if after_exports {
        Some("EXPORTS\n    DllMainCRTStartup\n".to_owned())
    } else {
        None
    }
}

/// A module-definition file goes to Zig's linker as an input of its own, by the
/// name that it has behind `-Wl,`.
pub proof fn law_definition_file_becomes_an_input(file: Seq<char>)
    requires
        ".def"@.is_suffix_of(lowered(file)),
    ensures
        linker_argument("-Wl,"@ + file) == file,
{
    let argument = "-Wl,"@ + file;
    assert(argument.take("-Wl,"@.len() as int) =~= "-Wl,"@);
    assert(argument.skip("-Wl,"@.len() as int) =~= file);
}

/// The contents that a module-definition file gets export something, so that
/// they are not replaced once more.
pub proof fn law_fallback_export_is_added_once(contents: Seq<char>)
    ensures
        with_fallback_export(contents) matches Some(patched) ==> with_fallback_export(
            patched,
        ) is None,
{
    lemma_fallback_export();
}

proof fn lemma_fallback_export()
    ensures
        !exports_nothing(lines("EXPORTS\n    DllMainCRTStartup\n"@)),
{
    reveal_strlit("EXPORTS\n    DllMainCRTStartup\n");
    reveal_strlit("EXPORTS");
    let text = "EXPORTS\n    DllMainCRTStartup\n"@;
    let rest = text.skip(8);
    lemma_find_char_is(text, '\n', 7);
    lemma_find_char_is(rest, '\n', 21);
    let list = lines(text);
    let export = rest.take(21);
    assert(text.take(7) =~= "EXPORTS"@);
    assert(export.last() == 'p');
    assert(lines(rest.skip(22)) =~= seq![]);
    assert(lines(rest) =~= seq![export]);
    assert(list =~= seq!["EXPORTS"@, export]);
    reveal_with_fuel(trim_start, 6);
    reveal_with_fuel(trim_end, 2);
    assert(trimmed("EXPORTS"@) =~= "EXPORTS"@);
    assert(is_exports_line(list[0]));
    let name = export.skip(4);
    assert(export.drop_first().drop_first().drop_first().drop_first() =~= name);
    assert(trimmed(export) =~= name);
    assert(name[0] == 'D');
    assert(lowered(name).len() == 17);
    assert(lowered("EXPORTS"@).len() == 7);
    assert(!is_exports_line(list[1]) && !is_blank_line(list[1]));
}

/// Whether the first character of a text is `c`.
fn starts_with_char(text: &str, c: char) -> (starts: bool)
    ensures
        starts == (text@.len() > 0 && text@[0] == c),
{
    if text.is_empty() {
        false
    } else {
        text.get_char(0) == c
    }
}

} // verus!
