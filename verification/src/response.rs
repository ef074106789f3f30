//! Linker response files: one argument a line, rewritten for Zig.

use vstd::prelude::*;
use vstd::string::StringExecFns;

use crate::erratum::{is_cortex_erratum_argument, is_erratum_argument};
use crate::text::{
    after_prefix, ends_with, join, joined, lines, lines_of, same, starts_with, texts, trim, trimmed,
    unquote, unquoted,
};
use crate::windows::{
    definition_file, is_image_base_argument, is_runtime_argument,
    is_windows_auto_image_base_argument, is_windows_runtime_argument, linker_argument,
    transform_windows_linker_argument, windows_definition_file,
};

verus! {

/// The argument that a line of a response file holds.
pub open spec fn line_value(line: Seq<char>) -> Seq<char> {
    unquoted(trimmed(line))
}

/// The argument that a line of a response file holds.
pub(crate) fn value_of(line: &str) -> (value: String)
    ensures
        value@ == line_value(line@),
{
    let trimmed_line = trim(line);
    unquote(trimmed_line.as_str())
}

/// The response file that an argument names.
pub open spec fn named_response(argument: Seq<char>) -> Option<Seq<char>> {
    if argument.len() > 0 && argument[0] == '@' {
        Some(argument.drop_first())
    } else {
        None
    }
}

/// The response file that an argument names.
pub fn response_file(argument: &str) -> (file: Option<String>)
    ensures
        match file {
            Some(file) => named_response(argument@) == Some(file@),
            None => named_response(argument@) is None,
        },
{
    proof {
        reveal_strlit("@");
        assert("@"@ =~= seq!['@']);
        if argument@.len() > 0 {
            assert(argument@.take(1) =~= seq![argument@[0]]);
            assert(argument@.take(1)[0] == argument@[0]);
            assert(seq!['@'][0] == '@');
        }
        assert(argument@.skip(1) =~= argument@.drop_first());
    }
    after_prefix(argument, "@")
}

// ---------------------------------------------------------------------------
// Library directories

/// The directories that the lines from `from` on add to the library search:
/// `-L` with the directory on the next line, or directly behind it.
pub open spec fn search_directories(list: Seq<Seq<char>>, from: int) -> Seq<Seq<char>>
    decreases list.len() - from,
{
    if from < 0 || from >= list.len() {
        seq![]
    } else if line_value(list[from]) == "-L"@ && from + 1 < list.len() {
        seq![line_value(list[from + 1])] + search_directories(list, from + 2)
    } else if "-L"@.is_prefix_of(line_value(list[from])) && line_value(list[from]).len()
        > "-L"@.len() {
        seq![line_value(list[from]).skip("-L"@.len() as int)] + search_directories(list, from + 1)
    } else {
        search_directories(list, from + 1)
    }
}

/// The directories that the lines of a response file add to the library search.
pub fn response_library_directories(lines: &[String]) -> (directories: Vec<String>)
    ensures
        texts(directories@) == search_directories(texts(lines@), 0),
{
    let ghost list = texts(lines@);
    let mut directories: Vec<String> = Vec::new();
    let mut index: usize = 0;
    assert(texts(directories@) + search_directories(list, 0) =~= search_directories(list, 0));
    while index < lines.len()
        invariant
            index <= lines@.len(),
            list == texts(lines@),
            texts(directories@) + search_directories(list, index as int) == search_directories(
                list,
                0,
            ),
        decreases lines@.len() - index,
    {
        let ghost before = texts(directories@);
        assert(list[index as int] == lines@[index as int]@);
        let value = value_of(lines[index].as_str());
        if same(value.as_str(), "-L") && index + 1 < lines.len() {
            assert(list[index + 1] == lines@[index + 1]@);
            let directory = value_of(lines[index + 1].as_str());
            directories.push(directory);
            assert(texts(directories@) =~= before.push(line_value(list[index + 1])));
            assert(texts(directories@) + search_directories(list, index + 2) =~= before
                + search_directories(list, index as int));
            index += 2;
            continue;
        }
        if let Some(directory) = after_prefix(value.as_str(), "-L") {
            if !directory.as_str().is_empty() {
                let ghost rest = directory@;
                directories.push(directory);
                assert(texts(directories@) =~= before.push(rest));
            }
        }
        assert(texts(directories@) + search_directories(list, index + 1) =~= before
            + search_directories(list, index as int));
        index += 1;
    }
    assert(texts(directories@) + search_directories(list, index as int) =~= texts(directories@));
    directories
}

// ---------------------------------------------------------------------------
// Import libraries

/// A file that is there: the name it was looked for by in its directory, and
/// its path as it is shown.
#[derive(Debug)]
pub struct LibraryFile {
    pub name: String,
    pub path: String,
}

/// A directory of the library search, with the files in it that were looked
/// for and are there.
#[derive(Debug)]
pub struct LibraryDirectory {
    pub files: Vec<LibraryFile>,
}

/// A file that is there, as its name and path.
pub open spec fn file_entry(file: LibraryFile) -> (Seq<char>, Seq<char>) {
    (file.name@, file.path@)
}

/// The files of a directory that are there.
pub open spec fn directory_entries(directory: LibraryDirectory) -> Seq<(Seq<char>, Seq<char>)> {
    directory.files@.map_values(|file: LibraryFile| file_entry(file))
}

/// The files of all directories that are there.
pub open spec fn search_entries(directories: Seq<LibraryDirectory>) -> Seq<
    Seq<(Seq<char>, Seq<char>)>,
> {
    directories.map_values(|directory: LibraryDirectory| directory_entries(directory))
}

/// The file names that a library can have, in the order they are tried.
pub open spec fn library_names(name: Seq<char>) -> Seq<Seq<char>> {
    seq!["lib"@ + name + ".a"@, name + ".lib"@, "lib"@ + name + ".dll.a"@]
}

/// The file names that a library can have, in the order they are tried.
pub fn windows_import_library_names(name: &str) -> (names: Vec<String>)
    ensures
        texts(names@) == library_names(name@),
{
    let mut archive = "lib".to_owned();
    archive.append(name);
    archive.append(".a");
    let mut import = name.to_owned();
    import.append(".lib");
    let mut dll_archive = "lib".to_owned();
    dll_archive.append(name);
    dll_archive.append(".dll.a");
    let names = vec![archive, import, dll_archive];
    assert(texts(names@) =~= library_names(name@));
    names
}

/// The path of the file with a name, if it is there.
pub open spec fn path_of(files: Seq<(Seq<char>, Seq<char>)>, name: Seq<char>) -> Option<Seq<char>>
    decreases files.len(),
{
    if files.len() == 0 {
        None
    } else if files[0].0 == name {
        Some(files[0].1)
    } else {
        path_of(files.drop_first(), name)
    }
}

/// The path of the first of some names that is there.
pub open spec fn path_of_first(
    files: Seq<(Seq<char>, Seq<char>)>,
    names: Seq<Seq<char>>,
) -> Option<Seq<char>>
    decreases names.len(),
{
    if names.len() == 0 {
        None
    } else if path_of(files, names[0]) is Some {
        path_of(files, names[0])
    } else {
        path_of_first(files, names.drop_first())
    }
}

/// The path of a library: of the first directory that has it, under the first
/// name that the directory has it by.
pub open spec fn library_path(
    directories: Seq<Seq<(Seq<char>, Seq<char>)>>,
    name: Seq<char>,
) -> Option<Seq<char>>
    decreases directories.len(),
{
    if directories.len() == 0 {
        None
    } else if path_of_first(directories[0], library_names(name)) is Some {
        path_of_first(directories[0], library_names(name))
    } else {
        library_path(directories.drop_first(), name)
    }
}

/// The path of the file with a name, if it is there.
fn find_file(directory: &LibraryDirectory, name: &str) -> (path: Option<String>)
    ensures
        match path {
            Some(path) => path_of(directory_entries(*directory), name@) == Some(path@),
            None => path_of(directory_entries(*directory), name@) is None,
        },
{
    let ghost files = directory_entries(*directory);
    let mut i: usize = 0;
    assert(files.skip(0) =~= files);
    while i < directory.files.len()
        invariant
            i <= directory.files@.len(),
            files == directory_entries(*directory),
            path_of(files, name@) == path_of(files.skip(i as int), name@),
        decreases directory.files@.len() - i,
    {
        assert(files.skip(i as int)[0] == file_entry(directory.files@[i as int]));
        if same(directory.files[i].name.as_str(), name) {
            return Some(directory.files[i].path.clone());
        }
        assert(files.skip(i as int).drop_first() =~= files.skip(i + 1));
        i += 1;
    }
    None
}

/// The path of the first of some names that is there.
fn find_first_file(directory: &LibraryDirectory, names: &Vec<String>) -> (path: Option<String>)
    ensures
        match path {
            Some(path) => path_of_first(directory_entries(*directory), texts(names@)) == Some(
                path@,
            ),
            None => path_of_first(directory_entries(*directory), texts(names@)) is None,
        },
{
    let ghost files = directory_entries(*directory);
    let ghost list = texts(names@);
    let mut i: usize = 0;
    assert(list.skip(0) =~= list);
    while i < names.len()
        invariant
            i <= names@.len(),
            files == directory_entries(*directory),
            list == texts(names@),
            path_of_first(files, list) == path_of_first(files, list.skip(i as int)),
        decreases names@.len() - i,
    {
        assert(list.skip(i as int)[0] == names@[i as int]@);
        if let Some(path) = find_file(directory, names[i].as_str()) {
            return Some(path);
        }
        assert(list.skip(i as int).drop_first() =~= list.skip(i + 1));
        i += 1;
    }
    None
}

/// The path of a library in the directories of the library search.
pub fn find_windows_import_library(name: &str, directories: &[LibraryDirectory]) -> (path:
    Option<String>)
    ensures
        match path {
            Some(path) => library_path(search_entries(directories@), name@) == Some(path@),
            None => library_path(search_entries(directories@), name@) is None,
        },
{
    let names = windows_import_library_names(name);
    let ghost all = search_entries(directories@);
    let mut i: usize = 0;
    assert(all.skip(0) =~= all);
    while i < directories.len()
        invariant
            i <= directories@.len(),
            all == search_entries(directories@),
            texts(names@) == library_names(name@),
            library_path(all, name@) == library_path(all.skip(i as int), name@),
        decreases directories@.len() - i,
    {
        assert(all.skip(i as int)[0] == directory_entries(directories@[i as int]));
        if let Some(path) = find_first_file(&directories[i], &names) {
            return Some(path);
        }
        assert(all.skip(i as int).drop_first() =~= all.skip(i + 1));
        i += 1;
    }
    None
}

// ---------------------------------------------------------------------------
// Lines

/// A text in double quotes.
pub open spec fn in_quotes(text: Seq<char>) -> Seq<char> {
    "\""@ + text + "\""@
}

/// A text in double quotes.
fn quote(text: &str) -> (result: String)
    ensures
        result@ == in_quotes(text@),
{
    let mut result = "\"".to_owned();
    result.append(text);
    result.append("\"");
    result
}

/// Whether the argument on a line stands in double quotes.
pub open spec fn is_quoted(line: Seq<char>) -> bool {
    let text = trimmed(line);
    text.len() > 0 && text[0] == '"' && text.last() == '"'
}

/// Whether the argument on a line stands in double quotes.
fn has_quotes(line: &str) -> (quoted: bool)
    ensures
        quoted == is_quoted(line@),
{
    proof {
        reveal_strlit("\"");
        assert("\""@.len() == 1 && "\""@[0] == '"');
    }
    let text = trim(line);
    let starts = starts_with(text.as_str(), "\"");
    let ends = ends_with(text.as_str(), "\"");
    proof {
        let t = text@;
        if t.len() > 0 {
            assert(t.take(1)[0] == t[0]);
            assert(t.skip(t.len() - 1)[0] == t.last());
            if t[0] == '"' {
                assert(t.take(1) =~= "\""@);
            }
            if t.last() == '"' {
                assert(t.skip(t.len() - 1) =~= "\""@);
            }
        }
    }
    starts && ends
}

/// A changed argument in place of the one on a line, in quotes if that was.
pub open spec fn requoted(line: Seq<char>, argument: Seq<char>) -> Seq<char> {
    if is_quoted(line) {
        in_quotes(argument)
    } else {
        argument
    }
}

/// A changed argument in place of the one on a line, in quotes if that was.
fn requote(line: &str, argument: String) -> (result: String)
    ensures
        result@ == requoted(line@, argument@),
{
    if has_quotes(line) {
        quote(argument.as_str())
    } else {
        argument
    }
}

/// The library that a line asks for by `-l`.
pub open spec fn requested_library(line: Seq<char>) -> Option<Seq<char>> {
    let value = line_value(line);
    if is_runtime_argument(value) || is_image_base_argument(value) || !"-l"@.is_prefix_of(value) {
        None
    } else {
        Some(value.skip("-l"@.len() as int))
    }
}

/// The library that a line asks for by `-l`, and that is looked for among the
/// library directories.
pub fn requested_windows_library(line: &str) -> (name: Option<String>)
    ensures
        match name {
            Some(name) => requested_library(line@) == Some(name@),
            None => requested_library(line@) is None,
        },
{
    let value = value_of(line);
    if is_windows_runtime_argument(value.as_str()) || is_windows_auto_image_base_argument(
        value.as_str(),
    ) {
        None
    } else {
        after_prefix(value.as_str(), "-l")
    }
}

/// A line of a response file for Zig's Windows linker, if it stays: a runtime
/// that Zig brings and an image-base switch go, a library that is found is
/// named by its path, a module-definition file becomes an input.
pub open spec fn windows_line(
    line: Seq<char>,
    directories: Seq<Seq<(Seq<char>, Seq<char>)>>,
) -> Option<Seq<char>> {
    let value = line_value(line);
    if is_runtime_argument(value) || is_image_base_argument(value) {
        None
    } else if requested_library(line) is Some && library_path(
        directories,
        requested_library(line)->0,
    ) is Some {
        Some(in_quotes(library_path(directories, requested_library(line)->0)->0))
    } else if linker_argument(value) == value {
        Some(line)
    } else {
        Some(requoted(line, linker_argument(value)))
    }
}

/// A line of a response file for Zig's Windows linker, if it stays.
pub fn transform_windows_response_line(
    line: &str,
    library_directories: &[LibraryDirectory],
) -> (result: Option<String>)
    ensures
        match result {
            Some(result) => windows_line(line@, search_entries(library_directories@)) == Some(
                result@,
            ),
            None => windows_line(line@, search_entries(library_directories@)) is None,
        },
{
    let value = value_of(line);
    if is_windows_runtime_argument(value.as_str()) || is_windows_auto_image_base_argument(
        value.as_str(),
    ) {
        return None;
    }
    if let Some(name) = requested_windows_library(line) {
        if let Some(path) = find_windows_import_library(name.as_str(), library_directories) {
            return Some(quote(path.as_str()));
        }
    }
    let changed = transform_windows_linker_argument(value.as_str());
    if same(changed.as_str(), value.as_str()) {
        Some(line.to_owned())
    } else {
        Some(requote(line, changed))
    }
}

// ---------------------------------------------------------------------------
// Module-definition files that a response file names

/// The module-definition file that a line names.
pub open spec fn line_definition(line: Seq<char>) -> Option<Seq<char>> {
    definition_file(line_value(line))
}

/// The module-definition files that the lines of a response file name.
pub fn response_definition_files(lines: &[String]) -> (files: Vec<String>)
    ensures
        texts(files@) == texts(lines@).filter_map(|line: Seq<char>| line_definition(line)),
{
    let ghost list = texts(lines@);
    let ghost pick = |line: Seq<char>| line_definition(line);
    let mut files: Vec<String> = Vec::new();
    let mut i: usize = 0;
    while i < lines.len()
        invariant
            i <= lines@.len(),
            list == texts(lines@),
            pick == (|line: Seq<char>| line_definition(line)),
            texts(files@) == list.take(i as int).filter_map(pick),
        decreases lines@.len() - i,
    {
        proof {
            assert(list.take(i + 1).drop_last() =~= list.take(i as int));
            assert(list.take(i + 1).last() == lines@[i as int]@);
            reveal(Seq::filter_map);
        }
        let ghost before = texts(files@);
        let value = value_of(lines[i].as_str());
        if let Some(file) = windows_definition_file(value.as_str()) {
            let ghost name = file@;
            files.push(file);
            assert(texts(files@) =~= before.push(name));
        }
        i += 1;
    }
    assert(list.take(i as int) =~= list);
    files
}

/// A copy that stands in for a module-definition file.
#[derive(Debug)]
pub struct DefinitionCopy {
    pub original: String,
    pub copy: String,
}

/// Copies as what they stand in for and their own paths.
pub open spec fn copy_entries(copies: Seq<DefinitionCopy>) -> Seq<(Seq<char>, Seq<char>)> {
    copies.map_values(|copy: DefinitionCopy| (copy.original@, copy.copy@))
}

/// A line with the first copy of its module-definition file in that one's place.
pub open spec fn redirected(line: Seq<char>, copies: Seq<(Seq<char>, Seq<char>)>) -> Seq<char> {
    if line_definition(line) is Some && path_of(copies, line_definition(line)->0) is Some {
        requoted(line, "-Wl,"@ + path_of(copies, line_definition(line)->0)->0)
    } else {
        line
    }
}

/// A line with the first copy of its module-definition file in that one's place.
fn redirect_line(line: &str, copies: &[DefinitionCopy]) -> (result: String)
    ensures
        result@ == redirected(line@, copy_entries(copies@)),
{
    let ghost entries = copy_entries(copies@);
    let value = value_of(line);
    if let Some(file) = windows_definition_file(value.as_str()) {
        let mut i: usize = 0;
        assert(entries.skip(0) =~= entries);
        while i < copies.len()
            invariant
                i <= copies@.len(),
                entries == copy_entries(copies@),
                line_definition(line@) == Some(file@),
                path_of(entries, file@) == path_of(entries.skip(i as int), file@),
            decreases copies@.len() - i,
        {
            assert(entries.skip(i as int)[0].0 == copies@[i as int].original@);
            if same(copies[i].original.as_str(), file.as_str()) {
                let mut changed = "-Wl,".to_owned();
                changed.append(copies[i].copy.as_str());
                return requote(line, changed);
            }
            assert(entries.skip(i as int).drop_first() =~= entries.skip(i + 1));
            i += 1;
        }
    }
    line.to_owned()
}

// ---------------------------------------------------------------------------
// Whole response files

/// A line of a response file for a Windows link: where the runtime is kept as
/// rustc asks for it, its lines stay, and where the linker takes the switch for
/// the Cortex-A53 erratum, that stays too.
pub open spec fn windows_link_line(
    line: Seq<char>,
    directories: Seq<Seq<(Seq<char>, Seq<char>)>>,
    copies: Seq<(Seq<char>, Seq<char>)>,
    keep_runtime: bool,
    keep_erratum: bool,
) -> Option<Seq<char>> {
    if keep_runtime && is_runtime_argument(line_value(line)) {
        Some(line)
    } else if !keep_erratum && is_erratum_argument(line_value(line)) {
        None
    } else {
        windows_line(redirected(line, copies), directories)
    }
}

/// The lines of a response file for a Windows link, joined by line feeds.
pub open spec fn windows_link_text(
    original: Seq<char>,
    directories: Seq<Seq<(Seq<char>, Seq<char>)>>,
    copies: Seq<(Seq<char>, Seq<char>)>,
    keep_runtime: bool,
    keep_erratum: bool,
) -> Seq<char> {
    joined(
        lines(original).filter_map(
            |line: Seq<char>|
                windows_link_line(line, directories, copies, keep_runtime, keep_erratum),
        ),
        "\n"@,
    )
}

/// What a response file is replaced by: nothing if its lines stay as they are.
pub open spec fn replacement(original: Seq<char>, text: Seq<char>) -> Option<Seq<char>> {
    if text == original {
        None
    } else {
        Some(text + "\n"@)
    }
}

/// What a response file is replaced by, given its changed lines.
pub(crate) fn replace_response(original: &str, changed: &Vec<String>) -> (result: Option<String>)
    ensures
        match result {
            Some(result) => replacement(original@, joined(texts(changed@), "\n"@)) == Some(result@),
            None => replacement(original@, joined(texts(changed@), "\n"@)) is None,
        },
{
    let mut text = join(changed, "\n");
    if same(text.as_str(), original) {
        None
    } else {
        text.append("\n");
        Some(text)
    }
}

/// What the contents of a response file are replaced by for a Windows link.
pub fn rewrite_windows_response(
    original: &str,
    directories: &[LibraryDirectory],
    copies: &[DefinitionCopy],
    keep_runtime: bool,
    keep_erratum: bool,
) -> (result: Option<String>)
    ensures
        ({
            let text = windows_link_text(
                original@,
                search_entries(directories@),
                copy_entries(copies@),
                keep_runtime,
                keep_erratum,
            );
            match result {
                Some(result) => replacement(original@, text) == Some(result@),
                None => replacement(original@, text) is None,
            }
        }),
{
    let list = lines_of(original);
    let ghost all = texts(list@);
    let ghost pick = |line: Seq<char>|
        windows_link_line(
            line,
            search_entries(directories@),
            copy_entries(copies@),
            keep_runtime,
            keep_erratum,
        );
    let mut changed: Vec<String> = Vec::new();
    let mut i: usize = 0;
    while i < list.len()
        invariant
            i <= list@.len(),
            all == texts(list@),
            pick == (|line: Seq<char>|
                windows_link_line(
                    line,
                    search_entries(directories@),
                    copy_entries(copies@),
                    keep_runtime,
                    keep_erratum,
                )),
            texts(changed@) == all.take(i as int).filter_map(pick),
        decreases list@.len() - i,
    {
        proof {
            assert(all.take(i + 1).drop_last() =~= all.take(i as int));
            assert(all.take(i + 1).last() == list@[i as int]@);
            reveal(Seq::filter_map);
        }
        let ghost before = texts(changed@);
        let line = list[i].as_str();
        let value = value_of(line);
        if keep_runtime && is_windows_runtime_argument(value.as_str()) {
            changed.push(line.to_owned());
            assert(texts(changed@) =~= before.push(line@));
        } else if keep_erratum || !is_cortex_erratum_argument(value.as_str()) {
            let redirected_line = redirect_line(line, copies);
            if let Some(result) = transform_windows_response_line(
                redirected_line.as_str(),
                directories,
            ) {
                let ghost text = result@;
                changed.push(result);
                assert(texts(changed@) =~= before.push(text));
            }
        }
        i += 1;
    }
    assert(all.take(i as int) =~= all);
    replace_response(original, &changed)
}

} // verus!
