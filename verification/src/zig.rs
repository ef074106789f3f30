//! Which Zig is used.

use vstd::prelude::*;
use vstd::string::StringExecFns;

use crate::exit::{exit_message, exit_outcome, Exit};
use crate::text::{find_present, first_present, refusal, texts};

verus! {

/// Where Zig comes from.
#[derive(Debug)]
pub enum ZigSource {
    /// The option for Zig's path.
    Option,
    /// The environment variable with this name.
    Variable(String),
    /// The search path for programs.
    SearchPath,
}

/// What messages call a source.
pub open spec fn zig_source_name(source: ZigSource) -> Seq<char> {
    match source {
        ZigSource::Option => "-zigpatch"@,
        ZigSource::Variable(name) => name@,
        ZigSource::SearchPath => "PATH"@,
    }
}

impl ZigSource {
    /// What messages call this source.
    pub fn name(&self) -> (name: &str)
        ensures
            name@ == zig_source_name(*self),
    {
        match self {
            ZigSource::Option => "-zigpatch",
            ZigSource::Variable(name) => name.as_str(),
            ZigSource::SearchPath => "PATH",
        }
    }
}

/// The environment variables that say where Zig is, in the order they are
/// looked at.
pub open spec fn zig_homes() -> Seq<Seq<char>> {
    seq!["Zig_home"@, "ZIG_HOME"@]
}

/// The environment variables that say where Zig is, in the order they are
/// looked at.
pub fn zig_variables() -> (names: Vec<String>)
    ensures
        texts(names@) == zig_homes(),
{
    let names = vec!["Zig_home".to_owned(), "ZIG_HOME".to_owned()];
    assert(texts(names@) =~= zig_homes());
    names
}

/// Where Zig is looked for: the option goes before the environment, and the
/// environment before the search path. `set` are the variables that are set.
pub fn zig_executable(zig_patch: &Option<String>, set: &Vec<String>) -> (source: ZigSource)
    ensures
        match source {
            ZigSource::Option => zig_patch is Some,
            ZigSource::Variable(name) => zig_patch is None && first_present(
                zig_homes(),
                texts(set@),
            ) == Some(name@),
            ZigSource::SearchPath => zig_patch is None && first_present(
                zig_homes(),
                texts(set@),
            ) is None,
        },
{
    if zig_patch.is_some() {
        return ZigSource::Option;
    }
    match find_present(&zig_variables(), set) {
        Some(name) => ZigSource::Variable(name),
        None => ZigSource::SearchPath,
    }
}

/// The names of Zig's executable, in the order they are tried.
pub open spec fn zig_names(windows: bool) -> Seq<Seq<char>> {
    if windows {
        seq!["zig.exe"@, "zig"@]
    } else {
        seq!["zig"@]
    }
}

/// The names of Zig's executable, in the order they are tried.
pub fn zig_executable_names(windows: bool) -> (names: Vec<String>)
    ensures
        texts(names@) == zig_names(windows),
{
    let names = if windows {
        vec!["zig.exe".to_owned(), "zig".to_owned()]
    } else {
        vec!["zig".to_owned()]
    };
    assert(texts(names@) =~= zig_names(windows));
    names
}

/// What is found at the path that Zig is said to have.
#[derive(Debug)]
pub enum ZigPath {
    File,
    /// A directory, with the names of Zig's executable that there is a file of.
    Directory(Vec<String>),
    /// Neither a file nor a directory.
    Missing,
}

/// The executable that a path of Zig's stands for.
#[derive(Debug)]
pub enum ZigExecutable {
    /// The path itself.
    Path,
    /// The file in it with this name.
    Within(String),
}

/// The executable that a path of Zig's stands for: the path if it is a file,
/// else the first of Zig's names in it. `source` named the path, which is shown
/// as `path`.
pub fn validate_zig_path(found: &ZigPath, path: &str, source: &str, windows: bool) -> (executable:
    Result<ZigExecutable, String>)
    ensures
        match *found {
            ZigPath::File => executable is Ok && executable->Ok_0 is Path,
            ZigPath::Missing => executable is Err && executable->Err_0@ == source@
                + " path does not exist: "@ + path@,
            ZigPath::Directory(present) => {
                let name = first_present(zig_names(windows), texts(present@));
                match executable {
                    Ok(ZigExecutable::Within(found_name)) => name == Some(found_name@),
                    Ok(ZigExecutable::Path) => false,
                    Err(message) => name is None && message@ == "could not find "@ + zig_names(
                        windows,
                    )[0] + " in "@ + source@ + " directory '"@ + path@ + "'"@,
                }
            },
        },
{
    match found {
        ZigPath::File => Ok(ZigExecutable::Path),
        ZigPath::Missing => {
            let mut message = source.to_owned();
            message.append(" path does not exist: ");
            message.append(path);
            Err(message)
        },
        ZigPath::Directory(present) => {
            let names = zig_executable_names(windows);
            if let Some(name) = find_present(&names, present) {
                return Ok(ZigExecutable::Within(name));
            }
            assert(texts(names@)[0] == names@[0]@);
            let mut message = "could not find ".to_owned();
            message.append(names[0].as_str());
            message.append(" in ");
            message.append(source);
            message.append(" directory '");
            message.append(path);
            message.append("'");
            Err(message)
        },
    }
}

/// What is said of a source whose executable did not show itself as Zig. The
/// search path is looked at only where nothing says where Zig is, which is what
/// is said if it has none.
pub open spec fn zig_refusal(executable: Seq<char>, source: ZigSource, exit: Exit) -> Option<
    Seq<char>,
> {
    let name = zig_source_name(source);
    if source is SearchPath && exit is NotStarted {
        Some("Zig_home is not set; set Zig_home or pass -zigpatch=<zig path>"@)
    } else {
        exit_message(
            exit,
            name + " does not point to an executable Zig: "@,
            name + " points to '"@ + executable + "', but Zig version validation failed with "@,
        )
    }
}

/// Whether an executable is Zig, from how its `version` command ended.
pub fn verify_zig(executable: &str, source: &ZigSource, exit: &Exit) -> (outcome: Result<
    (),
    String,
>)
    ensures
        refusal(outcome) == zig_refusal(executable@, *source, *exit),
{
    if let (ZigSource::SearchPath, Exit::NotStarted(_)) = (source, exit) {
        return Err("Zig_home is not set; set Zig_home or pass -zigpatch=<zig path>".to_owned());
    }
    let mut start = source.name().to_owned();
    start.append(" does not point to an executable Zig: ");
    let mut failure = source.name().to_owned();
    failure.append(" points to '");
    failure.append(executable);
    failure.append("', but Zig version validation failed with ");
    exit_outcome(exit, start.as_str(), failure.as_str())
}

} // verus!
