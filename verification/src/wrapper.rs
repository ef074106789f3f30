//! The tool wrappers: what a copy of this program does that Cargo or rustc
//! starts as a compiler, linker or archiver.

use vstd::prelude::*;
use vstd::string::StringExecFns;

use crate::options::is_optimize_mode;
use crate::text::{
    ends_with, join, joined, law_join_then_split, same, split, split_at_char, text_option, texts,
};

verus! {

// ---------------------------------------------------------------------------
// Which tool a wrapper is

/// The tool that a wrapper stands in for.
#[derive(Clone, Copy, Debug, PartialEq, Eq, Structural)]
pub enum WrapperMode {
    Cc,
    Cxx,
    Linker,
    Ar,
    Dlltool,
}

/// The tool that a wrapper with this file stem stands in for.
pub open spec fn mode_of_stem(stem: Seq<char>) -> Option<WrapperMode> {
    if "-cc"@.is_suffix_of(stem) {
        Some(WrapperMode::Cc)
    } else if "-cxx"@.is_suffix_of(stem) {
        Some(WrapperMode::Cxx)
    } else if "-linker"@.is_suffix_of(stem) {
        Some(WrapperMode::Linker)
    } else if "-ar"@.is_suffix_of(stem) {
        Some(WrapperMode::Ar)
    } else if stem == "dlltool"@ || "-dlltool"@.is_suffix_of(stem) {
        Some(WrapperMode::Dlltool)
    } else {
        None
    }
}

/// The tool that this program stands in for when its file has this stem.
pub fn wrapper_mode(stem: &str) -> (mode: Option<WrapperMode>)
    ensures
        mode == mode_of_stem(stem@),
{
    if ends_with(stem, "-cc") {
        Some(WrapperMode::Cc)
    } else if ends_with(stem, "-cxx") {
        Some(WrapperMode::Cxx)
    } else if ends_with(stem, "-linker") {
        Some(WrapperMode::Linker)
    } else if ends_with(stem, "-ar") {
        Some(WrapperMode::Ar)
    } else if same(stem, "dlltool") || ends_with(stem, "-dlltool") {
        Some(WrapperMode::Dlltool)
    } else {
        None
    }
}

/// The file stem of the wrapper for a tool.
pub open spec fn stem_of_mode(mode: WrapperMode) -> Seq<char> {
    match mode {
        WrapperMode::Cc => "cargo-zirild-cc"@,
        WrapperMode::Cxx => "cargo-zirild-cxx"@,
        WrapperMode::Linker => "cargo-zirild-linker"@,
        WrapperMode::Ar => "cargo-zirild-ar"@,
        WrapperMode::Dlltool => "dlltool"@,
    }
}

/// The file name of the wrapper for a tool.
pub fn wrapper_file_name(mode: WrapperMode, windows: bool) -> (name: String)
    ensures
        name@ == stem_of_mode(mode) + if windows {
            ".exe"@
        } else {
            ""@
        },
{
    let stem = match mode {
        WrapperMode::Cc => "cargo-zirild-cc",
        WrapperMode::Cxx => "cargo-zirild-cxx",
        WrapperMode::Linker => "cargo-zirild-linker",
        WrapperMode::Ar => "cargo-zirild-ar",
        WrapperMode::Dlltool => "dlltool",
    };
    let mut name = stem.to_owned();
    name.append(
        if windows {
            ".exe"
        } else {
            ""
        },
    );
    name
}

proof fn lemma_suffix_chars(suffix: Seq<char>, text: Seq<char>, back: int)
    requires
        suffix.is_suffix_of(text),
        1 <= back <= suffix.len(),
    ensures
        text[text.len() - back] == suffix[suffix.len() - back],
{
    assert(text.skip(text.len() - suffix.len())[suffix.len() - back] == text[text.len() - back]);
}

/// The wrapper that is made for a tool knows itself as that tool.
pub proof fn law_wrapper_knows_its_mode(mode: WrapperMode)
    ensures
        mode_of_stem(stem_of_mode(mode)) == Some(mode),
{
    let stem = stem_of_mode(mode);
    reveal_strlit("-cc");
    reveal_strlit("-cxx");
    reveal_strlit("-linker");
    reveal_strlit("-ar");
    reveal_strlit("-dlltool");
    reveal_strlit("dlltool");
    reveal_strlit("cargo-zirild-cc");
    reveal_strlit("cargo-zirild-cxx");
    reveal_strlit("cargo-zirild-linker");
    reveal_strlit("cargo-zirild-ar");
    if "-cc"@.is_suffix_of(stem) {
        lemma_suffix_chars("-cc"@, stem, 1);
    }
    if "-cxx"@.is_suffix_of(stem) {
        lemma_suffix_chars("-cxx"@, stem, 1);
    }
    if "-linker"@.is_suffix_of(stem) {
        lemma_suffix_chars("-linker"@, stem, 2);
        lemma_suffix_chars("-linker"@, stem, 1);
    }
    if "-ar"@.is_suffix_of(stem) {
        lemma_suffix_chars("-ar"@, stem, 2);
    }
    assert(stem_of_mode(WrapperMode::Cc).skip(12) =~= "-cc"@);
    assert(stem_of_mode(WrapperMode::Cxx).skip(12) =~= "-cxx"@);
    assert(stem_of_mode(WrapperMode::Linker).skip(12) =~= "-linker"@);
    assert(stem_of_mode(WrapperMode::Ar).skip(12) =~= "-ar"@);
}

// ---------------------------------------------------------------------------
// Flags

/// The optimisation flag of C compilers for one of Zig's optimisation modes.
pub open spec fn optimize_flag(mode: Seq<char>) -> Option<Seq<char>> {
    if mode == "Debug"@ {
        Some("-O0"@)
    } else if mode == "ReleaseSafe"@ {
        Some("-O2"@)
    } else if mode == "ReleaseFast"@ {
        Some("-O3"@)
    } else if mode == "ReleaseSmall"@ {
        Some("-Oz"@)
    } else {
        None
    }
}

/// The optimisation flag of C compilers for one of Zig's optimisation modes.
/// Zig's C and C++ frontends take Clang's flags, not the modes' names.
pub fn compiler_optimization_flag(optimize: &str) -> (flag: Result<&'static str, String>)
    ensures
        match flag {
            Ok(flag) => optimize_flag(optimize@) == Some(flag@),
            Err(message) => optimize_flag(optimize@) is None && message@
                == "invalid CARGO_ZIRILD_OPTIMIZE '"@ + optimize@ + "'"@,
        },
{
    if same(optimize, "Debug") {
        Ok("-O0")
    } else if same(optimize, "ReleaseSafe") {
        Ok("-O2")
    } else if same(optimize, "ReleaseFast") {
        Ok("-O3")
    } else if same(optimize, "ReleaseSmall") {
        Ok("-Oz")
    } else {
        let mut message = "invalid CARGO_ZIRILD_OPTIMIZE '".to_owned();
        message.append(optimize);
        message.append("'");
        Err(message)
    }
}

/// A mode that a command line can ask for is one that has a compiler flag.
pub proof fn law_every_mode_has_a_flag(mode: Seq<char>)
    ensures
        is_optimize_mode(mode) <==> optimize_flag(mode) is Some,
{
}

/// Native flags as one text for the environment.
pub fn encode_wrapper_arguments(arguments: &[String]) -> (encoded: String)
    ensures
        encoded@ == joined(texts(arguments@), "\n"@),
{
    let mut list: Vec<String> = Vec::new();
    let mut i: usize = 0;
    while i < arguments.len()
        invariant
            i <= arguments@.len(),
            list@.len() == i,
            forall|k: int| 0 <= k < i ==> (#[trigger] list@[k])@ == arguments@[k]@,
        decreases arguments@.len() - i,
    {
        list.push(arguments[i].clone());
        i += 1;
    }
    assert(texts(list@) =~= texts(arguments@));
    join(&list, "\n")
}

/// The native flags that a text from the environment stands for: its pieces
/// between line feeds, but for the empty ones.
pub open spec fn decoded(encoded: Option<Seq<char>>) -> Seq<Seq<char>> {
    match encoded {
        Some(encoded) => split(encoded, '\n').filter(|piece: Seq<char>| piece.len() > 0),
        None => seq![],
    }
}

/// The native flags that a text from the environment stands for.
pub fn wrapper_arguments(encoded: &Option<String>) -> (arguments: Vec<String>)
    ensures
        texts(arguments@) == decoded(text_option(*encoded)),
{
    let mut arguments: Vec<String> = Vec::new();
    match encoded {
        Some(encoded) => {
            let pieces = split_at_char(encoded.as_str(), '\n');
            let ghost list = texts(pieces@);
            let ghost keep = |piece: Seq<char>| piece.len() > 0;
            let mut i: usize = 0;
            while i < pieces.len()
                invariant
                    i <= pieces@.len(),
                    list == texts(pieces@),
                    keep == (|piece: Seq<char>| piece.len() > 0),
                    texts(arguments@) == list.take(i as int).filter(keep),
                decreases pieces@.len() - i,
            {
                proof {
                    assert(list.take(i + 1).drop_last() =~= list.take(i as int));
                    assert(list.take(i + 1).last() == pieces@[i as int]@);
                    reveal(Seq::filter);
                }
                let ghost before = texts(arguments@);
                if !pieces[i].as_str().is_empty() {
                    arguments.push(pieces[i].clone());
                    assert(texts(arguments@) =~= before.push(pieces@[i as int]@));
                }
                i += 1;
            }
            assert(list.take(i as int) =~= list);
        },
        None => {
            assert(texts(arguments@) =~= seq![]);
        },
    }
    arguments
}

proof fn lemma_filter_keeps_all(list: Seq<Seq<char>>)
    requires
        forall|i: int| 0 <= i < list.len() ==> (#[trigger] list[i]).len() > 0,
    ensures
        list.filter(|piece: Seq<char>| piece.len() > 0) == list,
    decreases list.len(),
{
    reveal(Seq::filter);
    if list.len() > 0 {
        assert forall|i: int| 0 <= i < list.drop_last().len() implies (
        #[trigger] list.drop_last()[i]).len() > 0 by {
            assert(list.drop_last()[i] == list[i]);
        }
        lemma_filter_keeps_all(list.drop_last());
        assert(list.last() == list[list.len() - 1]);
        assert(list.drop_last().push(list.last()) =~= list);
    }
}

/// Native flags reach the wrappers as they were given, if none of them is
/// empty or holds a line feed.
pub proof fn law_native_flags_reach_wrappers(flags: Seq<Seq<char>>)
    requires
        forall|i: int|
            0 <= i < flags.len() ==> (#[trigger] flags[i]).len() > 0 && !flags[i].contains('\n'),
    ensures
        decoded(Some(joined(flags, "\n"@))) == flags,
{
    reveal_strlit("\n");
    assert("\n"@ =~= seq!['\n']);
    if flags.len() == 0 {
        let none: Seq<char> = seq![];
        assert(split(none, '\n') =~= seq![none]);
        reveal_with_fuel(Seq::filter, 2);
        assert(split(none, '\n').drop_last() =~= seq![]);
        assert(split(none, '\n').last() == none);
        assert(split(none, '\n').filter(|piece: Seq<char>| piece.len() > 0) =~= flags);
    } else {
        law_join_then_split(flags, '\n');
        lemma_filter_keeps_all(flags);
    }
}

} // verus!
