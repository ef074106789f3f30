//! What the tools are started with, said of the texts themselves.

use vstd::prelude::*;

use crate::arguments::is_read;
use crate::cargo::cargo_environment;
use crate::driver::accepted_build;
use crate::handoff::{
    are_single_lines, finds, found, law_wrappers_find_the_build, law_wrappers_find_the_native_flags,
    wrapper_variables, FoundText,
};
use crate::invocation::{
    command_line, handed_on, setup, treatment, ArgumentText, SetupText, Tool, Treatment,
    WrapperRules, WrapperVariables,
};
use crate::linking_laws::law_definition_file_stands_behind_its_switch;
use crate::musl::is_startup_object;
use crate::reading_laws::{given_to, gives};
use crate::settings_laws::{given, law_native_flags_add_up};
use crate::target::is_android;
use crate::target_laws::{law_part_stands_between, law_windows_link_by_the_target};
use crate::text::{lowered, split};
use crate::text_laws::law_pieces_end_at_separators;
use crate::windows::definition_file;
use crate::wrapper::{decoded, mode_of_stem, optimize_flag, stem_of_mode, WrapperMode};

verus! {

// ---------------------------------------------------------------------------
// Flags

/// The modes of Zig's have these flags, and no other text has one.
pub proof fn law_modes_have_these_flags(mode: Seq<char>)
    ensures
        mode == "Debug"@ ==> optimize_flag(mode) == Some("-O0"@),
        mode == "ReleaseSafe"@ ==> optimize_flag(mode) == Some("-O2"@),
        mode == "ReleaseFast"@ ==> optimize_flag(mode) == Some("-O3"@),
        mode == "ReleaseSmall"@ ==> optimize_flag(mode) == Some("-Oz"@),
        mode != "Debug"@ && mode != "ReleaseSafe"@ && mode != "ReleaseFast"@ && mode
            != "ReleaseSmall"@ ==> optimize_flag(mode) is None,
{
    reveal_strlit("Debug");
    reveal_strlit("ReleaseSafe");
    reveal_strlit("ReleaseFast");
    reveal_strlit("ReleaseSmall");
    assert("Debug"@.len() == 5 && "ReleaseSmall"@.len() == 12);
    assert("ReleaseSafe"@[7] == 'S' && "ReleaseFast"@[7] == 'F');
}

/// Native flags are read line by line, each that is not empty, in their order.
pub proof fn law_flags_are_read_line_by_line(flag: Seq<char>, rest: Seq<char>)
    requires
        !flag.contains('\n'),
    ensures
        decoded(None) == Seq::<Seq<char>>::empty(),
        decoded(Some(flag)) == if flag.len() > 0 {
            seq![flag]
        } else {
            seq![]
        },
        decoded(Some(flag + seq!['\n'] + rest)) == decoded(Some(flag)) + decoded(Some(rest)),
{
    let keep = |piece: Seq<char>| piece.len() > 0;
    law_pieces_end_at_separators(flag, '\n', rest);
    reveal_with_fuel(Seq::filter, 2);
    assert(seq![flag].drop_last() =~= Seq::<Seq<char>>::empty());
    assert(seq![flag].last() == flag);
    assert(seq![flag].filter(keep) =~= if flag.len() > 0 {
        seq![flag]
    } else {
        seq![]
    });
    lemma_filter_first(flag, split(rest, '\n'), keep);
}

proof fn lemma_filter_first(
    first: Seq<char>,
    rest: Seq<Seq<char>>,
    keep: spec_fn(Seq<char>) -> bool,
)
    ensures
        (seq![first] + rest).filter(keep) == seq![first].filter(keep) + rest.filter(keep),
    decreases rest.len(),
{
    reveal(Seq::filter);
    let all = seq![first] + rest;
    if rest.len() == 0 {
        assert(all =~= seq![first]);
        assert(rest.filter(keep) =~= Seq::<Seq<char>>::empty());
        assert(all.filter(keep) =~= seq![first].filter(keep) + rest.filter(keep));
    } else {
        lemma_filter_first(first, rest.drop_last(), keep);
        assert(all.drop_last() =~= seq![first] + rest.drop_last());
        assert(all.last() == rest.last());
        assert(all.filter(keep) =~= seq![first].filter(keep) + rest.filter(keep));
    }
}

// ---------------------------------------------------------------------------
// The start of each tool

/// Texts where a condition holds, and none where it does not.
pub open spec fn when(condition: bool, text: Seq<char>) -> Seq<Seq<char>> {
    if condition {
        seq![text]
    } else {
        Seq::empty()
    }
}

/// A wrapper starts exactly if the environment has a target and an optimisation
/// mode of Zig's, and names the tool: Zig, or without Zig the NDK's own, which
/// has no `dlltool`.
pub proof fn law_wrappers_start_exactly_then(mode: WrapperMode, variables: WrapperVariables)
    ensures
        setup(mode, variables) is Ok <==> {
            &&& variables.zig_target is Some
            &&& variables.optimize == Some("Debug"@) || variables.optimize == Some("ReleaseSafe"@)
                || variables.optimize == Some("ReleaseFast"@) || variables.optimize == Some(
                "ReleaseSmall"@,
            )
            &&& !variables.ndk_fallback ==> variables.has_zig
            &&& variables.ndk_fallback ==> match mode {
                WrapperMode::Cc => variables.has_ndk_cc,
                WrapperMode::Cxx => variables.has_ndk_cxx,
                WrapperMode::Linker => variables.has_ndk_cc,
                WrapperMode::Ar => variables.has_ndk_ar,
                WrapperMode::Dlltool => false,
            }
        },
{
    if variables.optimize is Some {
        law_modes_have_these_flags(variables.optimize->0);
    }
}

/// With Zig, a compiler is started as Zig's frontend for its language, with the
/// target, the flag of the mode, no sanitizer, and every C flag. A mode that the
/// command line chose stands at the end instead.
pub proof fn law_zig_compiles_with_the_native_flags(
    mode: WrapperMode,
    variables: WrapperVariables,
)
    requires
        mode == WrapperMode::Cc || mode == WrapperMode::Cxx,
        !variables.ndk_fallback,
    ensures
        setup(mode, variables) matches Ok(start) ==> {
            let language = if mode == WrapperMode::Cc {
                "cc"@
            } else {
                "c++"@
            };
            let flag = optimize_flag(variables.optimize->0)->0;
            &&& start.tool == Tool::Zig
            &&& start.leading == seq![language, "-target"@, variables.zig_target->0] + when(
                !variables.optimize_chosen,
                flag,
            ) + seq!["-fno-sanitize=undefined"@] + decoded(variables.cflags)
            &&& start.trailing == when(variables.optimize_chosen, flag)
        },
{
    if let Ok(start) = setup(mode, variables) {
        let flag = optimize_flag(variables.optimize->0)->0;
        assert(start.trailing =~= when(variables.optimize_chosen, flag));
    }
}

/// With Zig, a link is started as Zig's C frontend, with the target, the flag of
/// the mode and every link argument. A Windows link that does not keep rustc's
/// runtime ends with the unwinder.
pub proof fn law_zig_links_with_the_native_flags(variables: WrapperVariables)
    requires
        !variables.ndk_fallback,
    ensures
        setup(WrapperMode::Linker, variables) matches Ok(start) ==> {
            let target = variables.zig_target->0;
            let windows = exists|front: Seq<char>, rest: Seq<char>|
                lowered(target) == #[trigger] (front + "-windows-"@ + rest);
            &&& start.tool == Tool::Zig
            &&& start.leading == seq![
                "cc"@,
                "-target"@,
                target,
                optimize_flag(variables.optimize->0)->0,
            ] + decoded(variables.link_args)
            &&& start.trailing == when(
                windows && variables.windows_runtime != Some("preserve"@),
                "-lunwind"@,
            )
        },
{
    if let Ok(start) = setup(WrapperMode::Linker, variables) {
        let target = variables.zig_target->0;
        law_windows_link_by_the_target(target);
        assert(start.leading =~= seq![
            "cc"@,
            "-target"@,
            target,
            optimize_flag(variables.optimize->0)->0,
        ] + decoded(variables.link_args));
        assert(start.trailing =~= when(
            start.rules.windows && variables.windows_runtime != Some("preserve"@),
            "-lunwind"@,
        ));
    }
}

/// The NDK's compilers are started with the flag of the mode, or end with it if
/// the command line chose it, and with every C flag; its linker with the flag
/// and every link argument.
pub proof fn law_ndk_is_started_with_the_native_flags(
    mode: WrapperMode,
    variables: WrapperVariables,
)
    requires
        variables.ndk_fallback,
    ensures
        setup(mode, variables) matches Ok(start) ==> {
            let flag = optimize_flag(variables.optimize->0)->0;
            let chosen = variables.optimize_chosen;
            match mode {
                WrapperMode::Cc => start.tool == Tool::NdkCc && start.leading == when(!chosen, flag)
                    + decoded(variables.cflags) && start.trailing == when(chosen, flag),
                WrapperMode::Cxx => start.tool == Tool::NdkCxx && start.leading == when(
                    !chosen,
                    flag,
                ) + decoded(variables.cflags) && start.trailing == when(chosen, flag),
                WrapperMode::Linker => start.tool == Tool::NdkCc && start.leading == seq![flag]
                    + decoded(variables.link_args),
                WrapperMode::Ar => start.tool == Tool::NdkAr && start.leading.len() == 0
                    && start.trailing.len() == 0,
                WrapperMode::Dlltool => false,
            }
        },
{
    if let Ok(start) = setup(mode, variables) {
        let flag = optimize_flag(variables.optimize->0)->0;
        let chosen = variables.optimize_chosen;
        if mode == WrapperMode::Cc || mode == WrapperMode::Cxx {
            assert(start.leading =~= when(!chosen, flag) + decoded(variables.cflags));
            assert(start.trailing =~= when(chosen, flag));
        } else if mode == WrapperMode::Linker {
            assert(start.leading =~= seq![flag] + decoded(variables.link_args));
        } else {
            assert(start.leading =~= Seq::<Seq<char>>::empty());
            assert(start.trailing =~= Seq::<Seq<char>>::empty());
        }
    }
}

/// With Zig, the archiver and the tool for DLLs are started by their names alone.
pub proof fn law_zig_archives_by_name(mode: WrapperMode, variables: WrapperVariables)
    requires
        mode == WrapperMode::Ar || mode == WrapperMode::Dlltool,
        !variables.ndk_fallback,
    ensures
        setup(mode, variables) matches Ok(start) ==> {
            &&& start.tool == Tool::Zig
            &&& start.leading == seq![
                if mode == WrapperMode::Ar {
                    "ar"@
                } else {
                    "dlltool"@
                },
            ]
            &&& start.trailing.len() == 0
        },
{
    if let Ok(start) = setup(mode, variables) {
        assert(start.leading =~= seq![
            if mode == WrapperMode::Ar {
                "ar"@
            } else {
                "dlltool"@
            },
        ]);
        assert(start.trailing =~= Seq::<Seq<char>>::empty());
    }
}

// ---------------------------------------------------------------------------
// What becomes of each argument

/// Whether a text starts with another.
pub open spec fn starts(text: Seq<char>, start: Seq<char>) -> bool {
    text.len() >= start.len() && text.take(start.len() as int) == start
}

/// A wrapper knows from its mode and its environment what it links and keeps.
pub proof fn law_rules_follow_the_environment(mode: WrapperMode, variables: WrapperVariables)
    ensures
        setup(mode, variables) matches Ok(start) ==> {
            let target = variables.zig_target->0;
            let links = mode == WrapperMode::Linker;
            &&& start.rules.mode == mode
            &&& start.rules.ndk_fallback == variables.ndk_fallback
            &&& start.rules.optimize_chosen == variables.optimize_chosen
            &&& start.rules.keep_runtime <==> variables.windows_runtime == Some("preserve"@)
            &&& start.rules.windows <==> links && exists|front: Seq<char>, rest: Seq<char>|
                lowered(target) == #[trigger] (front + "-windows-"@ + rest)
            &&& start.rules.musl <==> links && !variables.ndk_fallback && exists|
                front: Seq<char>,
                rest: Seq<char>,
            |
                target == #[trigger] (front + "-musl"@ + rest)
        },
{
    if variables.zig_target is Some {
        law_windows_link_by_the_target(variables.zig_target->0);
        law_part_stands_between(variables.zig_target->0, "-musl"@);
    }
}

/// A compiler of Zig's loses the targets that build scripts give it, and with a
/// chosen mode every compiler loses their optimisation flags. Nothing else is
/// left out.
pub proof fn law_compilers_lose_targets_and_overridden_flags(
    rules: WrapperRules,
    argument: Seq<char>,
)
    requires
        rules.mode == WrapperMode::Cc || rules.mode == WrapperMode::Cxx,
        !rules.windows,
    ensures
        treatment(rules, argument) == if !rules.ndk_fallback && argument == "--target"@ {
            Treatment::DropWithValue
        } else if (!rules.ndk_fallback && starts(argument, "--target="@)) || (rules.optimize_chosen
            && starts(argument, "-O"@)) {
            Treatment::Drop
        } else {
            Treatment::Keep
        },
{
}

/// The tool for DLLs loses the prefix for temporary files with its value, and
/// the archiver nothing.
pub proof fn law_archivers_lose_the_temporary_prefix(rules: WrapperRules, argument: Seq<char>)
    requires
        rules.mode == WrapperMode::Ar || rules.mode == WrapperMode::Dlltool,
        !rules.windows,
    ensures
        treatment(rules, argument) == if rules.mode == WrapperMode::Dlltool && argument
            == "--temp-prefix"@ {
            Treatment::DropWithValue
        } else {
            Treatment::Keep
        },
{
}

/// Whether a link leaves out an argument.
pub open spec fn link_leaves_out(rules: WrapperRules, argument: Seq<char>) -> bool {
    let zig_runtime = rules.windows && !rules.keep_runtime;
    ||| argument == "-nodefaultlibs"@ && (!rules.windows || !rules.keep_runtime)
    ||| zig_runtime && (argument == "-lgcc_eh"@ || argument == "-l:libpthread.a"@ || argument
        == "-lmsvcrt"@ || argument == "-lmingwex"@ || argument == "-lmingw32"@ || argument
        == "-lgcc"@)
    ||| rules.windows && (argument == "--enable-auto-image-base"@ || argument
        == "--disable-auto-image-base"@ || argument == "-Wl,--enable-auto-image-base"@ || argument
        == "-Wl,--disable-auto-image-base"@)
    ||| rules.musl && (argument == "-nostartfiles"@ || is_startup_object(argument))
    ||| !rules.ndk_fallback && argument == "-Wl,--fix-cortex-a53-843419"@
}

/// A link leaves out what Zig brings itself or refuses, and hands a Windows
/// linker its module-definition files as inputs. Everything else is handed on.
pub proof fn law_links_leave_out_what_zig_brings(rules: WrapperRules, argument: Seq<char>)
    requires
        rules.mode == WrapperMode::Linker,
    ensures
        link_leaves_out(rules, argument) ==> treatment(rules, argument) == Treatment::Drop,
        !link_leaves_out(rules, argument) ==> {
            &&& forall|file: Seq<char>|
                rules.windows && argument == #[trigger] ("-Wl,"@ + file) && (exists|
                    front: Seq<char>,
                |
                    lowered(file) == #[trigger] (front + ".def"@)) ==> treatment(rules, argument)
                    == Treatment::Replace(file)
            &&& !(rules.windows && exists|file: Seq<char>, front: Seq<char>|
                argument == #[trigger] ("-Wl,"@ + file) && lowered(file) == #[trigger] (front
                    + ".def"@)) ==> treatment(rules, argument) == Treatment::Keep
        },
{
    assert forall|file: Seq<char>|
        !link_leaves_out(rules, argument) && rules.windows && argument == #[trigger] ("-Wl,"@
            + file) && (exists|front: Seq<char>|
            lowered(file) == #[trigger] (front + ".def"@)) implies treatment(rules, argument)
        == Treatment::Replace(file) by {
        law_definition_file_stands_behind_its_switch(argument, file);
    }
    if definition_file(argument) is Some {
        let file = definition_file(argument)->0;
        law_definition_file_stands_behind_its_switch(argument, file);
        assert(argument == "-Wl,"@ + file);
        let front = choose|front: Seq<char>| lowered(file) == #[trigger] (front + ".def"@);
        assert(lowered(file) == front + ".def"@);
    }
}

/// The arguments are handed on one after the other: each as it is, or by what
/// replaces it, or not at all; one that goes with its value takes the next along.
pub proof fn law_arguments_are_handed_on_in_turn(
    rules: WrapperRules,
    arguments: Seq<Seq<char>>,
    i: int,
)
    requires
        0 <= i < arguments.len(),
    ensures
        ({
            let rest = handed_on(rules, arguments, i + 1);
            handed_on(rules, arguments, i) == match treatment(rules, arguments[i]) {
                Treatment::Keep => seq![ArgumentText::Original(i)] + rest,
                Treatment::Replace(text) => seq![ArgumentText::Text(text)] + rest,
                Treatment::Drop => rest,
                Treatment::DropWithValue => handed_on(rules, arguments, i + 2),
            }
        }),
        handed_on(rules, arguments, arguments.len() as int) == Seq::<ArgumentText>::empty(),
        handed_on(rules, arguments, arguments.len() as int + 1) == Seq::<ArgumentText>::empty(),
{
}

/// A command has the texts of the wrapper's start in front, then what is handed
/// on of its arguments from the first on, then the texts of its end.
pub proof fn law_command_has_three_parts(start: SetupText, arguments: Seq<Seq<char>>)
    ensures
        ({
            let line = command_line(start, arguments);
            let middle = handed_on(start.rules, arguments, 0);
            let front = start.leading.len() as int;
            let back = front + middle.len();
            &&& line.len() == back + start.trailing.len()
            &&& forall|k: int|
                0 <= k < front ==> #[trigger] line[k] == ArgumentText::Text(start.leading[k])
            &&& forall|k: int| front <= k < back ==> #[trigger] line[k] == middle[k - front]
            &&& forall|k: int|
                back <= k < line.len() ==> #[trigger] line[k] == ArgumentText::Text(
                    start.trailing[k - back],
                )
        }),
{
}

// ---------------------------------------------------------------------------
// From the command line to the tools

/// What one of the arguments gives is among what all of them give.
proof fn lemma_given_holds(arguments: Seq<Seq<char>>, name: Seq<char>, i: int, count: nat)
    requires
        0 <= i < count <= arguments.len(),
        is_read(arguments, i),
        gives(arguments[i], name),
    ensures
        given(arguments, name, name, count).contains(given_to(arguments[i], name)),
    decreases count,
{
    let before = given(arguments, name, name, (count - 1) as nat);
    let all = given(arguments, name, name, count);
    let value = given_to(arguments[i], name);
    if i == count - 1 {
        assert(all[before.len() as int] == value);
    } else {
        lemma_given_holds(arguments, name, i, (count - 1) as nat);
        let k = choose|k: int| 0 <= k < before.len() && before[k] == value;
        assert(all[k] == value);
    }
}

/// Every C flag of an accepted Android command line is among the arguments of
/// the C and C++ compilers, and every link argument among those of the linker,
/// whether Zig or the NDK is the tool. Left out are flags with a line feed.
pub proof fn law_native_flags_reach_the_tools(
    arguments: Seq<Seq<char>>,
    list: Seq<FoundText>,
    mode: WrapperMode,
    i: int,
    given_arguments: Seq<Seq<char>>,
)
    requires
        accepted_build(arguments) matches Ok(build) && finds(list, cargo_environment(build))
            && is_android(build.cargo_target) && are_single_lines(build.android.cflags)
            && are_single_lines(build.android.link_args),
        0 <= i < arguments.len(),
        is_read(arguments, i),
    ensures
        setup(mode, wrapper_variables(list)) matches Ok(start) ==> {
            let line = command_line(start, given_arguments);
            &&& gives(arguments[i], "-android-cflag"@) && (mode == WrapperMode::Cc || mode
                == WrapperMode::Cxx) ==> line.contains(
                ArgumentText::Text(given_to(arguments[i], "-android-cflag"@)),
            )
            &&& gives(arguments[i], "-android-link-arg"@) && mode == WrapperMode::Linker
                ==> line.contains(
                ArgumentText::Text(given_to(arguments[i], "-android-link-arg"@)),
            )
        },
{
    let build = accepted_build(arguments)->Ok_0;
    law_wrappers_find_the_build(arguments, list, mode);
    law_wrappers_find_the_native_flags(arguments);
    law_native_flags_add_up(arguments);
    let variables = wrapper_variables(list);
    if let Ok(start) = setup(mode, variables) {
        if variables.ndk_fallback {
            law_ndk_is_started_with_the_native_flags(mode, variables);
        } else if mode == WrapperMode::Linker {
            law_zig_links_with_the_native_flags(variables);
        } else if mode == WrapperMode::Cc || mode == WrapperMode::Cxx {
            law_zig_compiles_with_the_native_flags(mode, variables);
        }
        law_command_has_three_parts(start, given_arguments);
        let line = command_line(start, given_arguments);
        if gives(arguments[i], "-android-cflag"@) && (mode == WrapperMode::Cc || mode
            == WrapperMode::Cxx) {
            lemma_given_holds(arguments, "-android-cflag"@, i, arguments.len());
            let value = given_to(arguments[i], "-android-cflag"@);
            let flags = build.android.cflags;
            let k = choose|k: int| 0 <= k < flags.len() && flags[k] == value;
            let at = start.leading.len() - flags.len() + k;
            assert(start.leading[at] == value);
            assert(line[at] == ArgumentText::Text(value));
        }
        if gives(arguments[i], "-android-link-arg"@) && mode == WrapperMode::Linker {
            lemma_given_holds(arguments, "-android-link-arg"@, i, arguments.len());
            let value = given_to(arguments[i], "-android-link-arg"@);
            let flags = build.android.link_args;
            let k = choose|k: int| 0 <= k < flags.len() && flags[k] == value;
            let at = start.leading.len() - flags.len() + k;
            assert(start.leading[at] == value);
            assert(line[at] == ArgumentText::Text(value));
        }
    }
}

// ---------------------------------------------------------------------------
// The environment

/// Of the variables found under a name the first counts.
pub proof fn law_first_variable_of_a_name_counts(
    variable: FoundText,
    rest: Seq<FoundText>,
    name: Seq<char>,
)
    ensures
        found(Seq::empty(), name) is None,
        found(seq![variable] + rest, name) == if variable.name == name {
            Some(variable)
        } else {
            found(rest, name)
        },
{
    assert((seq![variable] + rest).drop_first() =~= rest);
}

/// The value of a variable, if it was found.
pub open spec fn value_in(list: Seq<FoundText>, name: Seq<char>) -> Option<Seq<char>> {
    if found(list, name) is Some {
        Some(found(list, name)->0.value)
    } else {
        None
    }
}

/// The value of a variable, if it was found and is Unicode.
pub open spec fn unicode_in(list: Seq<FoundText>, name: Seq<char>) -> Option<Seq<char>> {
    if found(list, name) is Some && found(list, name)->0.unicode {
        Some(found(list, name)->0.value)
    } else {
        None
    }
}

/// A wrapper reads its variables by these names. Flags only need to be set, and
/// native flags that are not Unicode are not read.
pub proof fn law_wrappers_read_these_variables(list: Seq<FoundText>)
    ensures
        ({
            let read = wrapper_variables(list);
            &&& read.zig_target == value_in(list, "CARGO_ZIRILD_ZIG_TARGET"@)
            &&& read.optimize == value_in(list, "CARGO_ZIRILD_OPTIMIZE"@)
            &&& read.windows_runtime == value_in(list, "CARGO_ZIRILD_WINDOWS_RUNTIME"@)
            &&& read.cflags == unicode_in(list, "CARGO_ZIRILD_ANDROID_CFLAGS"@)
            &&& read.link_args == unicode_in(list, "CARGO_ZIRILD_ANDROID_LINK_ARGS"@)
            &&& read.optimize_chosen == (found(list, "CARGO_ZIRILD_OPTIMIZE_CHOSEN"@) is Some)
            &&& read.ndk_fallback == (found(list, "CARGO_ZIRILD_NDK_FALLBACK"@) is Some)
            &&& read.has_zig == (found(list, "CARGO_ZIRILD_ZIG"@) is Some)
            &&& read.has_ndk_cc == (found(list, "CARGO_ZIRILD_NDK_CC"@) is Some)
            &&& read.has_ndk_cxx == (found(list, "CARGO_ZIRILD_NDK_CXX"@) is Some)
            &&& read.has_ndk_ar == (found(list, "CARGO_ZIRILD_NDK_AR"@) is Some)
            &&& read.trace == (found(list, "CARGO_ZIRILD_TRACE"@) is Some)
        }),
{
}

// ---------------------------------------------------------------------------
// The wrappers' files

/// The wrappers' files are named after this tool and the tool that they stand in
/// for, but for `dlltool`, which rustc looks for by its own name.
pub proof fn law_wrappers_are_named_after_their_tools(mode: WrapperMode)
    ensures
        mode == WrapperMode::Dlltool ==> stem_of_mode(mode) == "dlltool"@,
        mode != WrapperMode::Dlltool ==> stem_of_mode(mode) == "cargo-zirild-"@ + match mode {
            WrapperMode::Cc => "cc"@,
            WrapperMode::Cxx => "cxx"@,
            WrapperMode::Linker => "linker"@,
            WrapperMode::Ar => "ar"@,
            WrapperMode::Dlltool => "dlltool"@,
        },
{
    reveal_strlit("cargo-zirild-");
    reveal_strlit("cc");
    reveal_strlit("cxx");
    reveal_strlit("linker");
    reveal_strlit("ar");
    reveal_strlit("cargo-zirild-cc");
    reveal_strlit("cargo-zirild-cxx");
    reveal_strlit("cargo-zirild-linker");
    reveal_strlit("cargo-zirild-ar");
    assert("cargo-zirild-cc"@ =~= "cargo-zirild-"@ + "cc"@);
    assert("cargo-zirild-cxx"@ =~= "cargo-zirild-"@ + "cxx"@);
    assert("cargo-zirild-linker"@ =~= "cargo-zirild-"@ + "linker"@);
    assert("cargo-zirild-ar"@ =~= "cargo-zirild-"@ + "ar"@);
}

/// Whether a text ends with another.
pub open spec fn ends(text: Seq<char>, end: Seq<char>) -> bool {
    exists|front: Seq<char>| text == #[trigger] (front + end)
}

proof fn lemma_ends(text: Seq<char>, end: Seq<char>)
    ensures
        ends(text, end) <==> end.is_suffix_of(text),
{
    if end.is_suffix_of(text) {
        assert(text =~= text.take(text.len() - end.len()) + end);
    }
    if ends(text, end) {
        let front = choose|front: Seq<char>| text == #[trigger] (front + end);
        assert(text.skip(text.len() - end.len()) =~= end);
    }
}

/// A program is a wrapper exactly if the end of its name, behind a hyphen, is a
/// tool's, or if it is called `dlltool`.
pub proof fn law_wrappers_go_by_the_end_of_their_names(stem: Seq<char>)
    ensures
        mode_of_stem(stem) == Some(WrapperMode::Cc) <==> ends(stem, "-cc"@),
        mode_of_stem(stem) == Some(WrapperMode::Cxx) <==> ends(stem, "-cxx"@),
        mode_of_stem(stem) == Some(WrapperMode::Linker) <==> ends(stem, "-linker"@),
        mode_of_stem(stem) == Some(WrapperMode::Ar) <==> ends(stem, "-ar"@),
        mode_of_stem(stem) == Some(WrapperMode::Dlltool) <==> ends(stem, "-dlltool"@) || stem
            == "dlltool"@,
{
    reveal_strlit("-cc");
    reveal_strlit("-cxx");
    reveal_strlit("-linker");
    reveal_strlit("-ar");
    reveal_strlit("-dlltool");
    reveal_strlit("dlltool");
    lemma_ends(stem, "-cc"@);
    lemma_ends(stem, "-cxx"@);
    lemma_ends(stem, "-linker"@);
    lemma_ends(stem, "-ar"@);
    lemma_ends(stem, "-dlltool"@);
    let last = stem.len() - 1;
    if "-cc"@.is_suffix_of(stem) {
        assert(stem[last] == "-cc"@[2]);
    }
    if "-cxx"@.is_suffix_of(stem) {
        assert(stem[last] == "-cxx"@[3]);
    }
    if "-linker"@.is_suffix_of(stem) {
        assert(stem[last] == "-linker"@[6] && stem[last - 1] == "-linker"@[5]);
    }
    if "-ar"@.is_suffix_of(stem) {
        assert(stem[last] == "-ar"@[2] && stem[last - 1] == "-ar"@[1]);
    }
    if "-dlltool"@.is_suffix_of(stem) {
        assert(stem[last] == "-dlltool"@[7]);
    }
    if stem == "dlltool"@ {
        assert(stem[6] == 'l');
    }
}

} // verus!
