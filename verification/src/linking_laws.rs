//! What Windows and musl links are given, said of the texts themselves.

use vstd::prelude::*;

use crate::erratum::{is_erratum_argument, plain_line, plain_link_text};
use crate::musl::{
    is_startup_argument, is_startup_name, is_startup_object, links_musl, musl_line, musl_link_text,
    path_pieces,
};
use crate::response::{
    library_names, library_path, line_definition, line_value, named_response, path_of,
    path_of_first, replacement, requested_library, search_directories, windows_line,
    windows_link_line, windows_link_text,
};
use crate::target_laws::law_part_stands_between;
use crate::text::{
    find_char, joined, law_split_then_join, lemma_find_char, lemma_split_pieces, lines, lowered,
    replaced, split, trimmed, white_space,
};
use crate::text_laws::{
    is_blank, is_quotes, law_pieces_end_at_separators, law_trimming_takes_white_space_off,
    law_unquoting_takes_quotes_off,
};
use crate::windows::{
    definition_file, exports_nothing, is_blank_line, is_exports_line, is_image_base_argument,
    is_runtime_argument, with_fallback_export,
};

verus! {

// ---------------------------------------------------------------------------
// Single arguments

/// The runtime arguments are seven words, and no other.
pub proof fn law_runtime_is_seven_arguments(argument: Seq<char>)
    ensures
        is_runtime_argument(argument) <==> seq![
            "-nodefaultlibs"@,
            "-lgcc_eh"@,
            "-l:libpthread.a"@,
            "-lmsvcrt"@,
            "-lmingwex"@,
            "-lmingw32"@,
            "-lgcc"@,
        ].contains(argument),
{
    let all = seq![
        "-nodefaultlibs"@,
        "-lgcc_eh"@,
        "-l:libpthread.a"@,
        "-lmsvcrt"@,
        "-lmingwex"@,
        "-lmingw32"@,
        "-lgcc"@,
    ];
    assert(all[0] == "-nodefaultlibs"@ && all[1] == "-lgcc_eh"@ && all[2] == "-l:libpthread.a"@);
    assert(all[3] == "-lmsvcrt"@ && all[4] == "-lmingwex"@ && all[5] == "-lmingw32"@);
    assert(all[6] == "-lgcc"@);
}

/// The image-base switches are two, each by itself and behind `-Wl,`.
pub proof fn law_image_base_is_two_switches(argument: Seq<char>)
    ensures
        is_image_base_argument(argument) <==> {
            ||| argument == "--enable-auto-image-base"@
            ||| argument == "--disable-auto-image-base"@
            ||| argument == "-Wl,"@ + "--enable-auto-image-base"@
            ||| argument == "-Wl,"@ + "--disable-auto-image-base"@
        },
{
    reveal_strlit("-Wl,");
    reveal_strlit("--enable-auto-image-base");
    reveal_strlit("--disable-auto-image-base");
    reveal_strlit("-Wl,--enable-auto-image-base");
    reveal_strlit("-Wl,--disable-auto-image-base");
    assert("-Wl,"@ + "--enable-auto-image-base"@ =~= "-Wl,--enable-auto-image-base"@);
    assert("-Wl,"@ + "--disable-auto-image-base"@ =~= "-Wl,--disable-auto-image-base"@);
}

/// A module-definition file is handed to the linker exactly by `-Wl,` and its
/// name, where the name ends in `.def` in any case.
pub proof fn law_definition_file_stands_behind_its_switch(argument: Seq<char>, file: Seq<char>)
    ensures
        definition_file(argument) == Some(file) <==> argument == "-Wl,"@ + file && exists|
            front: Seq<char>,
        |
            lowered(file) == #[trigger] (front + ".def"@),
{
    let rest = argument.skip("-Wl,"@.len() as int);
    if definition_file(argument) == Some(file) {
        assert(argument =~= "-Wl,"@ + rest) by {
            assert(argument.take("-Wl,"@.len() as int) == "-Wl,"@);
            assert(argument =~= argument.take("-Wl,"@.len() as int) + rest);
        }
        let low = lowered(file);
        let front = low.take(low.len() - ".def"@.len());
        assert(low =~= front + ".def"@);
    }
    if argument == "-Wl,"@ + file && exists|front: Seq<char>|
        lowered(file) == #[trigger] (front + ".def"@) {
        let front = choose|front: Seq<char>| lowered(file) == #[trigger] (front + ".def"@);
        assert(argument.take("-Wl,"@.len() as int) =~= "-Wl,"@);
        assert(rest =~= file);
        assert(lowered(file).skip(lowered(file).len() - ".def"@.len()) =~= ".def"@);
    }
}

/// An argument names a response file exactly by an at sign in front of its name.
pub proof fn law_response_stands_behind_an_at_sign(argument: Seq<char>, file: Seq<char>)
    ensures
        named_response(argument) == Some(file) <==> argument == seq!['@'] + file,
{
    if named_response(argument) == Some(file) {
        assert(argument =~= seq!['@'] + file);
    }
    if argument == seq!['@'] + file {
        assert(argument.drop_first() =~= file);
    }
}

// ---------------------------------------------------------------------------
// Module-definition files

/// A module-definition file gets the fallback export exactly if a line of it is
/// `EXPORTS` in any case, and every line behind such a line is one more, empty,
/// or a comment.
pub proof fn law_fallback_export_is_for_empty_exports(contents: Seq<char>)
    ensures
        ({
            let list = lines(contents);
            let starts = |i: int| lowered(trimmed(list[i])) == "exports"@;
            let blank = |i: int| trimmed(list[i]).len() == 0 || trimmed(list[i])[0] == ';';
            with_fallback_export(contents) == if (exists|i: int|
                0 <= i < list.len() && #[trigger] starts(i)) && (forall|i: int, j: int|
                0 <= i < j < list.len() && #[trigger] starts(i) && !(#[trigger] starts(j))
                    ==> blank(j)) {
                Some("EXPORTS\n    DllMainCRTStartup\n"@)
            } else {
                None
            }
        }),
{
    reveal_strlit("EXPORTS");
    reveal_strlit("exports");
    assert(lowered("EXPORTS"@) =~= "exports"@);
    let list = lines(contents);
    let starts = |i: int| lowered(trimmed(list[i])) == "exports"@;
    let blank = |i: int| trimmed(list[i]).len() == 0 || trimmed(list[i])[0] == ';';
    assert(forall|i: int| 0 <= i < list.len() ==> starts(i) == is_exports_line(#[trigger] list[i]));
    assert(forall|i: int| 0 <= i < list.len() ==> blank(i) == is_blank_line(#[trigger] list[i]));
    if exports_nothing(list) {
        let i = choose|i: int| 0 <= i < list.len() && is_exports_line(#[trigger] list[i]);
        assert(starts(i));
        assert forall|i: int, j: int|
            0 <= i < j < list.len() && #[trigger] starts(i) && !(#[trigger] starts(
                j,
            )) implies blank(j) by {
            assert(is_exports_line(list[i]));
            assert(!is_exports_line(list[j]));
            assert(is_blank_line(list[j]));
        }
    } else if (exists|i: int| 0 <= i < list.len() && #[trigger] starts(i)) {
        let i = choose|i: int| 0 <= i < list.len() && #[trigger] starts(i);
        assert(is_exports_line(list[i]));
        let (x, y) = choose|x: int, y: int|
            0 <= x < y < list.len() && is_exports_line(#[trigger] list[x]) && !(is_exports_line(
                #[trigger] list[y],
            ) || is_blank_line(list[y]));
        assert(starts(x) && !starts(y) && !blank(y));
    }
}

// ---------------------------------------------------------------------------
// Lines of response files

/// Whether a text neither starts nor ends with white space or a double quote.
pub open spec fn is_bare(text: Seq<char>) -> bool {
    text.len() > 0 ==> {
        &&& !white_space(text[0]) && text[0] != '"'
        &&& !white_space(text.last()) && text.last() != '"'
    }
}

/// A line holds the argument that is left without the white space and the
/// double quotes around it. So it holds the same in quotes and without.
pub proof fn law_line_holds_its_argument(
    front: Seq<char>,
    open: Seq<char>,
    argument: Seq<char>,
    close: Seq<char>,
    back: Seq<char>,
)
    requires
        is_blank(front) && is_blank(back),
        is_quotes(open) && is_quotes(close),
        is_bare(argument),
    ensures
        line_value(front + open + argument + close + back) == argument,
{
    let inner = open + argument + close;
    let line = front + open + argument + close + back;
    assert(line =~= front + inner + back);
    if inner.len() > 0 {
        assert(inner[0] == '"' || inner[0] == argument[0]) by {
            if open.len() > 0 {
                assert(inner[0] == open[0]);
            } else if argument.len() > 0 {
                assert(inner[0] == argument[0]);
            } else {
                assert(inner[0] == close[0]);
            }
        }
        assert(inner.last() == '"' || inner.last() == argument.last()) by {
            if close.len() > 0 {
                assert(inner.last() == close.last());
            } else if argument.len() > 0 {
                assert(inner.last() == argument.last());
            } else {
                assert(inner.last() == open.last());
            }
        }
        if open.len() == 0 && argument.len() > 0 {
            assert(inner[0] == argument[0]);
        } else if open.len() > 0 {
            assert(inner[0] == open[0]);
        } else {
            assert(inner[0] == close[0]);
        }
        if close.len() == 0 && argument.len() > 0 {
            assert(inner.last() == argument.last());
        } else if close.len() > 0 {
            assert(inner.last() == close.last());
        } else {
            assert(inner.last() == open.last());
        }
    }
    law_trimming_takes_white_space_off(front, inner, back);
    law_unquoting_takes_quotes_off(open, argument, close);
}

/// Whether a file of a name is among those that are there.
pub open spec fn holds(files: Seq<(Seq<char>, Seq<char>)>, name: Seq<char>) -> bool {
    exists|k: int| 0 <= k < files.len() && (#[trigger] files[k]).0 == name
}

/// Whether a path is that of the first file of a name.
pub open spec fn is_path_of(
    files: Seq<(Seq<char>, Seq<char>)>,
    name: Seq<char>,
    path: Seq<char>,
) -> bool {
    exists|k: int|
        {
            &&& 0 <= k < files.len()
            &&& (#[trigger] files[k]).0 == name
            &&& files[k].1 == path
            &&& forall|l: int| 0 <= l < k ==> (#[trigger] files[l]).0 != name
        }
}

/// Whether a library is among the files that are there, by one of its names.
pub open spec fn holds_library(files: Seq<(Seq<char>, Seq<char>)>, name: Seq<char>) -> bool {
    ||| holds(files, "lib"@ + name + ".a"@)
    ||| holds(files, name + ".lib"@)
    ||| holds(files, "lib"@ + name + ".dll.a"@)
}

/// Whether a path is that of a library among the files that are there: of the
/// static archive, else of the import library, else of the archive of a DLL.
pub open spec fn is_library_path(
    files: Seq<(Seq<char>, Seq<char>)>,
    name: Seq<char>,
    path: Seq<char>,
) -> bool {
    let archive = "lib"@ + name + ".a"@;
    let import = name + ".lib"@;
    if holds(files, archive) {
        is_path_of(files, archive, path)
    } else if holds(files, import) {
        is_path_of(files, import, path)
    } else {
        is_path_of(files, "lib"@ + name + ".dll.a"@, path)
    }
}

proof fn lemma_path_of(files: Seq<(Seq<char>, Seq<char>)>, name: Seq<char>)
    ensures
        match path_of(files, name) {
            Some(path) => holds(files, name) && is_path_of(files, name, path),
            None => !holds(files, name),
        },
    decreases files.len(),
{
    if files.len() > 0 {
        let rest = files.drop_first();
        if files[0].0 == name {
            assert(is_path_of(files, name, files[0].1));
        } else {
            lemma_path_of(rest, name);
            assert forall|k: int| 0 < k < files.len() implies #[trigger] files[k] == rest[
                k - 1
            ] by {}
            if let Some(path) = path_of(rest, name) {
                let k = choose|k: int|
                    {
                        &&& 0 <= k < rest.len()
                        &&& (#[trigger] rest[k]).0 == name
                        &&& rest[k].1 == path
                        &&& forall|l: int| 0 <= l < k ==> (#[trigger] rest[l]).0 != name
                    };
                assert(files[k + 1].0 == name && files[k + 1].1 == path);
                assert forall|l: int| 0 <= l < k + 1 implies (#[trigger] files[l]).0 != name by {
                    if l > 0 {
                        assert(files[l] == rest[l - 1]);
                    }
                }
            } else if holds(files, name) {
                let k = choose|k: int| 0 <= k < files.len() && (#[trigger] files[k]).0 == name;
                assert(rest[k - 1].0 == name);
            }
        }
    }
}

proof fn lemma_library_in_directory(files: Seq<(Seq<char>, Seq<char>)>, name: Seq<char>)
    ensures
        match path_of_first(files, library_names(name)) {
            Some(path) => holds_library(files, name) && is_library_path(files, name, path),
            None => !holds_library(files, name),
        },
{
    let names = library_names(name);
    let two = names.drop_first();
    let one = two.drop_first();
    lemma_path_of(files, names[0]);
    lemma_path_of(files, names[1]);
    lemma_path_of(files, names[2]);
    assert(two[0] == names[1] && one[0] == names[2]);
    assert(one.drop_first().len() == 0);
    reveal_with_fuel(path_of_first, 4);
}

/// A library is looked for in one directory after the other: the first that
/// holds it by one of its three names decides, and it is not found exactly if no
/// directory does.
pub proof fn law_first_directory_has_the_library(
    directories: Seq<Seq<(Seq<char>, Seq<char>)>>,
    name: Seq<char>,
)
    ensures
        match library_path(directories, name) {
            Some(path) => exists|d: int|
                {
                    &&& 0 <= d < directories.len()
                    &&& holds_library(#[trigger] directories[d], name)
                    &&& is_library_path(directories[d], name, path)
                    &&& forall|e: int|
                        0 <= e < d ==> !holds_library(#[trigger] directories[e], name)
                },
            None => forall|d: int|
                0 <= d < directories.len() ==> !holds_library(#[trigger] directories[d], name),
        },
    decreases directories.len(),
{
    if directories.len() > 0 {
        lemma_library_in_directory(directories[0], name);
        let rest = directories.drop_first();
        if path_of_first(directories[0], library_names(name)) is None {
            law_first_directory_has_the_library(rest, name);
            assert forall|d: int| 0 < d < directories.len() implies #[trigger] directories[d]
                == rest[d - 1] by {}
            if let Some(path) = library_path(rest, name) {
                let d = choose|d: int|
                    {
                        &&& 0 <= d < rest.len()
                        &&& holds_library(#[trigger] rest[d], name)
                        &&& is_library_path(rest[d], name, path)
                        &&& forall|e: int| 0 <= e < d ==> !holds_library(#[trigger] rest[e], name)
                    };
                assert(directories[d + 1] == rest[d]);
                assert forall|e: int| 0 <= e < d + 1 implies !holds_library(
                    #[trigger] directories[e],
                    name,
                ) by {
                    if e > 0 {
                        assert(directories[e] == rest[e - 1]);
                    }
                }
            }
        } else {
            assert(holds_library(directories[0], name));
        }
    }
}

/// Whether an argument stays out of Windows links.
pub open spec fn stays_out(argument: Seq<char>) -> bool {
    is_runtime_argument(argument) || is_image_base_argument(argument)
}

/// A line that asks for a library by `-l` names the library's path in quotes,
/// where one of the directories holds it by one of its names: that of the first
/// directory, and there by the first name. Whether the line itself stands in
/// quotes makes no difference.
pub proof fn law_found_library_is_named_by_its_path(
    line: Seq<char>,
    name: Seq<char>,
    directories: Seq<Seq<(Seq<char>, Seq<char>)>>,
    d: int,
)
    requires
        line_value(line) == "-l"@ + name,
        !stays_out("-l"@ + name),
        0 <= d < directories.len(),
        holds_library(directories[d], name),
        forall|e: int| 0 <= e < d ==> !holds_library(#[trigger] directories[e], name),
    ensures
        exists|path: Seq<char>|
            {
                &&& is_library_path(directories[d], name, path)
                &&& windows_line(line, directories) == Some(
                    #[trigger] (seq!['"'] + path + seq!['"']),
                )
            },
{
    reveal_strlit("\"");
    assert("\""@ =~= seq!['"']);
    let value = "-l"@ + name;
    assert(value.take("-l"@.len() as int) =~= "-l"@);
    assert(value.skip("-l"@.len() as int) =~= name);
    assert(requested_library(line) == Some(name));
    law_first_directory_has_the_library(directories, name);
    let path = library_path(directories, name)->0;
    let f = choose|f: int|
        {
            &&& 0 <= f < directories.len()
            &&& holds_library(#[trigger] directories[f], name)
            &&& is_library_path(directories[f], name, path)
            &&& forall|e: int| 0 <= e < f ==> !holds_library(#[trigger] directories[e], name)
        };
    assert(f == d);
    assert(windows_line(line, directories) == Some(seq!['"'] + path + seq!['"']));
}

/// A line that asks for a library in quotes and one that asks for it without are
/// rewritten to the same.
pub proof fn law_quotes_make_no_difference_to_libraries(
    line: Seq<char>,
    other: Seq<char>,
    name: Seq<char>,
    directories: Seq<Seq<(Seq<char>, Seq<char>)>>,
)
    requires
        line_value(line) == "-l"@ + name,
        line_value(other) == "-l"@ + name,
        exists|d: int| 0 <= d < directories.len() && holds_library(#[trigger] directories[d], name),
    ensures
        windows_line(line, directories) == windows_line(other, directories),
{
    let value = "-l"@ + name;
    assert(value.take("-l"@.len() as int) =~= "-l"@);
    assert(value.skip("-l"@.len() as int) =~= name);
    law_first_directory_has_the_library(directories, name);
}

/// A line that asks for a library which no directory holds stays as it is.
pub proof fn law_missing_library_is_left_to_the_linker(
    line: Seq<char>,
    name: Seq<char>,
    directories: Seq<Seq<(Seq<char>, Seq<char>)>>,
)
    requires
        line_value(line) == "-l"@ + name,
        !stays_out("-l"@ + name),
        forall|d: int|
            0 <= d < directories.len() ==> !holds_library(#[trigger] directories[d], name),
    ensures
        windows_line(line, directories) == Some(line),
{
    reveal_strlit("-l");
    reveal_strlit("-Wl,");
    let value = "-l"@ + name;
    assert(value.take("-l"@.len() as int) =~= "-l"@);
    assert(value.skip("-l"@.len() as int) =~= name);
    law_first_directory_has_the_library(directories, name);
    assert("-Wl,"@[1] == 'W' && value[1] == 'l');
    if "-Wl,"@.is_prefix_of(value) {
        assert(value.take(4)[1] == value[1]);
    }
}

/// A line that holds a runtime argument or an image-base switch goes, in quotes
/// or without.
pub proof fn law_runtime_lines_go(
    line: Seq<char>,
    directories: Seq<Seq<(Seq<char>, Seq<char>)>>,
)
    ensures
        windows_line(line, directories) is None <==> {
            let value = line_value(line);
            ||| value == "-nodefaultlibs"@ || value == "-lgcc_eh"@ || value == "-l:libpthread.a"@
            ||| value == "-lmsvcrt"@ || value == "-lmingwex"@ || value == "-lmingw32"@
            ||| value == "-lgcc"@
            ||| value == "--enable-auto-image-base"@ || value == "--disable-auto-image-base"@
            ||| value == "-Wl,--enable-auto-image-base"@
            ||| value == "-Wl,--disable-auto-image-base"@
        },
{
}

/// Whether the white space around a line leaves a text in double quotes.
pub open spec fn stands_in_quotes(line: Seq<char>) -> bool {
    trimmed(line).len() > 0 && trimmed(line)[0] == '"' && trimmed(line).last() == '"'
}

/// A line that hands over a module-definition file becomes the file's name, in
/// quotes if it was. Every other line that does not go and asks for no library
/// stays as it is.
pub proof fn law_definition_lines_become_inputs(
    line: Seq<char>,
    directories: Seq<Seq<(Seq<char>, Seq<char>)>>,
)
    requires
        !stays_out(line_value(line)),
        !(exists|name: Seq<char>| line_value(line) == #[trigger] ("-l"@ + name)),
    ensures
        forall|file: Seq<char>|
            line_value(line) == #[trigger] ("-Wl,"@ + file) && (exists|front: Seq<char>|
                lowered(file) == #[trigger] (front + ".def"@)) ==> windows_line(line, directories)
                == Some(
                if stands_in_quotes(line) {
                    seq!['"'] + file + seq!['"']
                } else {
                    file
                },
            ),
        !(exists|file: Seq<char>, front: Seq<char>|
            line_value(line) == #[trigger] ("-Wl,"@ + file) && lowered(file) == #[trigger] (front
                + ".def"@)) ==> windows_line(line, directories) == Some(line),
{
    reveal_strlit("\"");
    assert("\""@ =~= seq!['"']);
    let value = line_value(line);
    assert(requested_library(line) is None) by {
        if "-l"@.is_prefix_of(value) {
            let name = value.skip("-l"@.len() as int);
            assert(value.take("-l"@.len() as int) == "-l"@);
            assert(value =~= "-l"@ + name);
        }
    }
    assert forall|file: Seq<char>|
        value == #[trigger] ("-Wl,"@ + file) && (exists|front: Seq<char>|
            lowered(file) == #[trigger] (front + ".def"@)) implies windows_line(line, directories)
        == Some(
        if stands_in_quotes(line) {
            seq!['"'] + file + seq!['"']
        } else {
            file
        },
    ) by {
        law_definition_file_stands_behind_its_switch(value, file);
        reveal_strlit("-Wl,");
        assert(file.len() != value.len());
    }
    if definition_file(value) is Some {
        let file = definition_file(value)->0;
        law_definition_file_stands_behind_its_switch(value, file);
        assert(value == "-Wl,"@ + file);
        let front = choose|front: Seq<char>| lowered(file) == #[trigger] (front + ".def"@);
        assert(lowered(file) == front + ".def"@);
    }
}

/// A response file is replaced exactly if its rewritten lines, with line feeds
/// between them, are not its contents; then by them with a line feed at the end.
pub proof fn law_unchanged_response_is_not_replaced(original: Seq<char>, text: Seq<char>)
    ensures
        replacement(original, text) is None <==> text == original,
        text != original ==> replacement(original, text) == Some(text.push('\n')),
{
    reveal_strlit("\n");
    assert(text + "\n"@ =~= text.push('\n'));
}

/// Library directories are found line by line: `-L` takes the line that follows
/// it, `-L` with more behind it takes that, and other lines add nothing.
pub proof fn law_library_directories_follow_their_switch(list: Seq<Seq<char>>, i: int)
    requires
        0 <= i < list.len(),
    ensures
        line_value(list[i]) == "-L"@ && i + 1 < list.len() ==> search_directories(list, i) == seq![
            line_value(list[i + 1]),
        ] + search_directories(list, i + 2),
        forall|directory: Seq<char>|
            directory.len() > 0 && line_value(list[i]) == #[trigger] ("-L"@ + directory)
                ==> search_directories(list, i) == seq![directory] + search_directories(list, i + 1),
        line_value(list[i]) == "-L"@ && i + 1 == list.len() ==> search_directories(list, i)
            == Seq::<Seq<char>>::empty(),
        !(exists|rest: Seq<char>| line_value(list[i]) == #[trigger] ("-L"@ + rest))
            ==> search_directories(list, i) == search_directories(list, i + 1),
        search_directories(list, list.len() as int) == Seq::<Seq<char>>::empty(),
{
    let value = line_value(list[i]);
    let size = "-L"@.len() as int;
    assert("-L"@ + Seq::<char>::empty() =~= "-L"@);
    if "-L"@.is_prefix_of(value) {
        assert(value.take(size) == "-L"@);
        assert(value =~= "-L"@ + value.skip(size));
    }
    assert forall|directory: Seq<char>|
        directory.len() > 0 && value == #[trigger] ("-L"@ + directory) implies search_directories(
        list,
        i,
    ) == seq![directory] + search_directories(list, i + 1) by {
        assert(value.take(size) =~= "-L"@);
        assert(value.skip(size) =~= directory);
        assert(value.len() > "-L"@.len());
    }
    assert(search_directories(list, i + 1) == search_directories(list, i + 1));
}

// ---------------------------------------------------------------------------
// musl

/// A target links for musl where a piece of it starts with `musl`.
pub proof fn law_musl_link_by_the_target(spelling: Seq<char>)
    ensures
        links_musl(spelling) <==> exists|front: Seq<char>, rest: Seq<char>|
            spelling == #[trigger] (front + "-musl"@ + rest),
{
    law_part_stands_between(spelling, "-musl"@);
}

/// The startup objects are five files, and those whose names start with
/// `crtbegin` or `crtend` and end in `.o`.
pub proof fn law_startup_objects_by_name(name: Seq<char>)
    ensures
        is_startup_name(name) <==> {
            ||| name == "crt1.o"@ || name == "Scrt1.o"@ || name == "rcrt1.o"@
            ||| name == "crti.o"@ || name == "crtn.o"@
            ||| exists|rest: Seq<char>, front: Seq<char>|
                (name == #[trigger] ("crtbegin"@ + rest) || name == "crtend"@ + rest) && name
                    == #[trigger] (front + ".o"@)
        },
{
    let size = ".o"@.len() as int;
    if ".o"@.is_suffix_of(name) {
        let front = name.take(name.len() - size);
        assert(name =~= front + ".o"@);
        if "crtbegin"@.is_prefix_of(name) {
            let rest = name.skip("crtbegin"@.len() as int);
            assert(name.take("crtbegin"@.len() as int) == "crtbegin"@);
            assert(name =~= "crtbegin"@ + rest);
            assert(name == front + ".o"@);
        }
        if "crtend"@.is_prefix_of(name) {
            let rest = name.skip("crtend"@.len() as int);
            assert(name.take("crtend"@.len() as int) == "crtend"@);
            assert(name =~= "crtend"@ + rest);
            let other = "crtbegin"@ + rest;
            assert(name == front + ".o"@);
        }
    }
    if exists|rest: Seq<char>, front: Seq<char>|
        (name == #[trigger] ("crtbegin"@ + rest) || name == "crtend"@ + rest) && name
            == #[trigger] (front + ".o"@) {
        let (rest, front) = choose|rest: Seq<char>, front: Seq<char>|
            (name == #[trigger] ("crtbegin"@ + rest) || name == "crtend"@ + rest) && name
                == #[trigger] (front + ".o"@);
        assert(name.skip(name.len() - size) =~= ".o"@);
        if name == "crtbegin"@ + rest {
            assert(name.take("crtbegin"@.len() as int) =~= "crtbegin"@);
        } else {
            assert(name.take("crtend"@.len() as int) =~= "crtend"@);
        }
    }
}

/// Whether a character separates the parts of a path.
pub open spec fn is_separator(c: char) -> bool {
    c == '/' || c == '\\'
}

/// A startup object in a directory `self-contained` stays out of a musl link,
/// whatever the path in front of it and whichever separators it has. An object
/// of another name stays in.
pub proof fn law_self_contained_startup_objects_go(
    path: Seq<char>,
    first: char,
    second: char,
    name: Seq<char>,
)
    requires
        is_separator(first) && is_separator(second),
        !name.contains('/') && !name.contains('\\'),
    ensures
        is_startup_object(path + seq![first] + "self-contained"@ + seq![second] + name)
            <==> is_startup_name(name),
{
    reveal_strlit("self-contained");
    let word = "self-contained"@;
    let whole = path + seq![first] + word + seq![second] + name;
    let flat = replaced(path, '\\', '/');
    assert(forall|i: int| 0 <= i < word.len() ==> word[i] != '/' && word[i] != '\\');
    assert forall|i: int| 0 <= i < name.len() implies name[i] != '/' && name[i] != '\\' by {
        assert(name.contains(name[i]));
    }
    let end = word + seq!['/'] + name;
    assert(replaced(whole, '\\', '/') =~= flat + seq!['/'] + end);
    assert(!word.contains('/'));
    law_pieces_end_at_separators(word, '/', name);
    law_pieces_end_at_separators(name, '/', name);
    assert(split(end, '/') =~= seq![word, name]);
    lemma_pieces_behind(flat, end);
    let pieces = path_pieces(whole);
    assert(pieces.last() == name);
    assert(pieces[pieces.len() - 2] == word);
}

/// The pieces behind a separator are the last ones.
proof fn lemma_pieces_behind(front: Seq<char>, end: Seq<char>)
    ensures
        split(front + seq!['/'] + end, '/') == split(front, '/') + split(end, '/'),
    decreases front.len(),
{
    lemma_find_char(front, '/');
    let at = find_char(front, '/');
    let whole = front + seq!['/'] + end;
    if at == front.len() {
        assert(!front.contains('/')) by {
            if front.contains('/') {
                let k = choose|k: int| 0 <= k < front.len() && front[k] == '/';
                assert(front[k] != '/');
            }
        }
        law_pieces_end_at_separators(front, '/', end);
    } else {
        let piece = front.take(at);
        let rest = front.skip(at + 1);
        assert(!piece.contains('/')) by {
            if piece.contains('/') {
                let k = choose|k: int| 0 <= k < piece.len() && piece[k] == '/';
                assert(front[k] != '/');
            }
        }
        assert(front =~= piece + seq!['/'] + rest);
        law_pieces_end_at_separators(piece, '/', rest);
        assert(whole =~= piece + seq!['/'] + (rest + seq!['/'] + end));
        law_pieces_end_at_separators(piece, '/', rest + seq!['/'] + end);
        lemma_pieces_behind(rest, end);
        assert(split(whole, '/') =~= split(front, '/') + split(end, '/'));
    }
}

/// A musl link goes without `-nostartfiles`, the startup objects and the switch
/// for the Cortex-A53 erratum, in response files as among its arguments. All
/// other lines stay as they are.
pub proof fn law_musl_lines_stay_but_for_startup(line: Seq<char>)
    ensures
        musl_line(line) == if line_value(line) == "-nostartfiles"@ || line_value(line)
            == "-Wl,--fix-cortex-a53-843419"@ || is_startup_object(line_value(line)) {
            None
        } else {
            Some(line)
        },
        is_startup_argument(line) <==> line == "-nostartfiles"@ || is_startup_object(line),
        is_erratum_argument(line) <==> line == "-Wl,--fix-cortex-a53-843419"@,
{
}

/// So does one in a directory `self-contained` with nothing in front of it.
pub proof fn law_startup_objects_go_by_short_paths(separator: char, name: Seq<char>)
    requires
        is_separator(separator),
        !name.contains('/') && !name.contains('\\'),
    ensures
        is_startup_object("self-contained"@ + seq![separator] + name) <==> is_startup_name(name),
{
    reveal_strlit("self-contained");
    let word = "self-contained"@;
    let whole = word + seq![separator] + name;
    assert(forall|i: int| 0 <= i < word.len() ==> word[i] != '/' && word[i] != '\\');
    assert forall|i: int| 0 <= i < name.len() implies name[i] != '/' && name[i] != '\\' by {
        assert(name.contains(name[i]));
    }
    assert(replaced(whole, '\\', '/') =~= word + seq!['/'] + name);
    assert(!word.contains('/'));
    law_pieces_end_at_separators(word, '/', name);
    law_pieces_end_at_separators(name, '/', name);
    assert(path_pieces(whole) =~= seq![word, name]);
}

/// A file that does not lie directly in a directory `self-contained` is none of
/// rustc's startup objects, whatever it is called.
pub proof fn law_startup_objects_lie_in_self_contained(
    directory: Seq<char>,
    separator: char,
    name: Seq<char>,
)
    requires
        is_separator(separator),
        !name.contains('/') && !name.contains('\\'),
        directory != "self-contained"@,
        !(exists|front: Seq<char>, c: char|
            is_separator(c) && directory == #[trigger] (front + seq![c] + "self-contained"@)),
    ensures
        !is_startup_object(directory + seq![separator] + name),
        !is_startup_object(name),
{
    reveal_strlit("self-contained");
    let word = "self-contained"@;
    let whole = directory + seq![separator] + name;
    let flat = replaced(directory, '\\', '/');
    assert forall|i: int| 0 <= i < name.len() implies name[i] != '/' && name[i] != '\\' by {
        assert(name.contains(name[i]));
    }
    assert(replaced(whole, '\\', '/') =~= flat + seq!['/'] + name);
    assert(replaced(name, '\\', '/') =~= name);
    lemma_pieces_behind(flat, name);
    law_pieces_end_at_separators(name, '/', name);
    let pieces = path_pieces(whole);
    let front = split(flat, '/');
    lemma_split_pieces(flat, '/');
    law_split_then_join(flat, '/');
    assert(pieces =~= front.push(name));
    if is_startup_object(whole) {
        assert(front.last() == word);
        assert(forall|i: int| 0 <= i < word.len() ==> word[i] != '/' && word[i] != '\\');
        if front.len() == 1 {
            assert(flat == word);
            assert(directory =~= word) by {
                assert(flat.len() == directory.len());
                assert forall|i: int| 0 <= i < directory.len() implies directory[i] == word[i] by {
                    assert(flat[i] == word[i]);
                }
            }
        } else {
            let start = joined(front.drop_last(), seq!['/']);
            assert(flat == start + seq!['/'] + word);
            let k = start.len() as int;
            let c = directory[k];
            assert(flat[k] == '/');
            let rest = directory.take(k);
            assert(directory =~= rest + seq![c] + word) by {
                assert forall|i: int| 0 <= i < word.len() implies directory[k + 1 + i]
                    == word[i] by {
                    assert(flat[k + 1 + i] == word[i]);
                }
            }
        }
    }
}

// ---------------------------------------------------------------------------
// Whole response files

/// The lines that are left of some, each as it is rewritten.
pub open spec fn rewritten(
    list: Seq<Seq<char>>,
    rewrite: spec_fn(Seq<char>) -> Option<Seq<char>>,
) -> Seq<Seq<char>>
    decreases list.len(),
{
    if list.len() == 0 {
        seq![]
    } else {
        match rewrite(list[0]) {
            Some(line) => seq![line] + rewritten(list.drop_first(), rewrite),
            None => rewritten(list.drop_first(), rewrite),
        }
    }
}

proof fn lemma_rewritten_push(
    list: Seq<Seq<char>>,
    last: Seq<char>,
    rewrite: spec_fn(Seq<char>) -> Option<Seq<char>>,
)
    ensures
        rewritten(list.push(last), rewrite) == match rewrite(last) {
            Some(line) => rewritten(list, rewrite).push(line),
            None => rewritten(list, rewrite),
        },
    decreases list.len(),
{
    let all = list.push(last);
    if list.len() == 0 {
        assert(all.drop_first() =~= Seq::<Seq<char>>::empty());
        assert(rewritten(all.drop_first(), rewrite) =~= seq![]);
        assert(rewritten(all, rewrite) =~= match rewrite(last) {
            Some(line) => rewritten(list, rewrite).push(line),
            None => rewritten(list, rewrite),
        });
    } else {
        assert(all.drop_first() =~= list.drop_first().push(last));
        assert(all[0] == list[0]);
        lemma_rewritten_push(list.drop_first(), last, rewrite);
        assert(rewritten(all, rewrite) =~= match rewrite(last) {
            Some(line) => rewritten(list, rewrite).push(line),
            None => rewritten(list, rewrite),
        });
    }
}

proof fn lemma_rewritten(
    list: Seq<Seq<char>>,
    rewrite: spec_fn(Seq<char>) -> Option<Seq<char>>,
)
    ensures
        list.filter_map(rewrite) == rewritten(list, rewrite),
    decreases list.len(),
{
    reveal(Seq::filter_map);
    if list.len() > 0 {
        lemma_rewritten(list.drop_last(), rewrite);
        lemma_rewritten_push(list.drop_last(), list.last(), rewrite);
        assert(list.drop_last().push(list.last()) =~= list);
    }
}

/// A response file is rewritten line by line, with no line but those that go
/// left out, in their order, and with a line feed between each two.
pub proof fn law_responses_are_rewritten_line_by_line(
    original: Seq<char>,
    directories: Seq<Seq<(Seq<char>, Seq<char>)>>,
    copies: Seq<(Seq<char>, Seq<char>)>,
    keep_runtime: bool,
    keep_erratum: bool,
)
    ensures
        windows_link_text(original, directories, copies, keep_runtime, keep_erratum) == joined(
            rewritten(
                lines(original),
                |line: Seq<char>|
                    windows_link_line(line, directories, copies, keep_runtime, keep_erratum),
            ),
            seq!['\n'],
        ),
        musl_link_text(original) == joined(
            rewritten(lines(original), |line: Seq<char>| musl_line(line)),
            seq!['\n'],
        ),
        plain_link_text(original) == joined(
            rewritten(lines(original), |line: Seq<char>| plain_line(line)),
            seq!['\n'],
        ).push('\n'),
{
    reveal_strlit("\n");
    assert("\n"@ =~= seq!['\n']);
    lemma_rewritten(
        lines(original),
        |line: Seq<char>| windows_link_line(line, directories, copies, keep_runtime, keep_erratum),
    );
    lemma_rewritten(lines(original), |line: Seq<char>| musl_line(line));
    lemma_rewritten(lines(original), |line: Seq<char>| plain_line(line));
    let text = joined(
        rewritten(lines(original), |line: Seq<char>| plain_line(line)),
        seq!['\n'],
    );
    assert(text + "\n"@ =~= text.push('\n'));
}

/// A line of a Windows link whose module-definition file was not copied, that is
/// no runtime to keep and not the switch for the erratum, is rewritten as it is
/// by itself.
pub proof fn law_uncopied_lines_are_rewritten_alone(
    line: Seq<char>,
    directories: Seq<Seq<(Seq<char>, Seq<char>)>>,
    copies: Seq<(Seq<char>, Seq<char>)>,
    keep_runtime: bool,
    keep_erratum: bool,
)
    requires
        !(keep_runtime && is_runtime_argument(line_value(line))),
        keep_erratum || line_value(line) != "-Wl,--fix-cortex-a53-843419"@,
        forall|k: int|
            0 <= k < copies.len() ==> line_value(line) != "-Wl,"@ + (#[trigger] copies[k]).0,
    ensures
        windows_link_line(line, directories, copies, keep_runtime, keep_erratum) == windows_line(
            line,
            directories,
        ),
{
    let value = line_value(line);
    if definition_file(value) is Some {
        let file = definition_file(value)->0;
        law_definition_file_stands_behind_its_switch(value, file);
        lemma_path_of(copies, file);
        if path_of(copies, file) is Some {
            let k = choose|k: int| 0 <= k < copies.len() && (#[trigger] copies[k]).0 == file;
            assert(value == "-Wl,"@ + copies[k].0);
        }
    }
}

/// A line names a module-definition file exactly by the argument that it holds.
pub proof fn law_line_names_its_definition_file(line: Seq<char>, file: Seq<char>)
    ensures
        line_definition(line) == Some(file) <==> line_value(line) == "-Wl,"@ + file && exists|
            front: Seq<char>,
        |
            lowered(file) == #[trigger] (front + ".def"@),
{
    law_definition_file_stands_behind_its_switch(line_value(line), file);
}

} // verus!
