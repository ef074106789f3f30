//! What a command line sets, said of the arguments that set it.

use vstd::prelude::*;

use crate::arguments::{is_read, name_part, parse, scan, setting_of, value_part, Setting};
use crate::decimal::{numeral, parsed};
use crate::options::{api_level_text, WindowsRuntime};
use crate::reading_laws::{
    given_to, gives, law_settings_go_by_their_names, lemma_gives, lemma_setting_names, makes,
};
use crate::target::{cargo_target, is_android, zig_target};
use crate::text::{find_char, lemma_find_char_is};

verus! {

/// The values that the first arguments give to a setting by one of two names, in
/// their order. Only arguments that are read as such give one.
pub open spec fn given(
    arguments: Seq<Seq<char>>,
    one: Seq<char>,
    other: Seq<char>,
    count: nat,
) -> Seq<Seq<char>>
    decreases count,
{
    if count == 0 {
        seq![]
    } else {
        let before = given(arguments, one, other, (count - 1) as nat);
        let argument = arguments[count - 1];
        if !is_read(arguments, count - 1) {
            before
        } else if gives(argument, one) {
            before.push(given_to(argument, one))
        } else if gives(argument, other) {
            before.push(given_to(argument, other))
        } else {
            before
        }
    }
}

/// The last of some values, if there is one.
pub open spec fn last_of(list: Seq<Seq<char>>) -> Option<Seq<char>> {
    if list.len() == 0 {
        None
    } else {
        Some(list.last())
    }
}

/// Whether a word is read among the first arguments.
pub open spec fn reads(arguments: Seq<Seq<char>>, word: Seq<char>, count: int) -> bool {
    exists|i: int| 0 <= i < count && is_read(arguments, i) && #[trigger] arguments[i] == word
}

pub(crate) proof fn lemma_makes(argument: Seq<char>)
    ensures
        forall|setting: Setting|
            #[trigger] makes(argument, setting) ==> setting_of(argument) == Some(setting),
        setting_of(argument) matches Some(setting) ==> makes(argument, setting),
{
    assert forall|setting: Setting| #[trigger] makes(argument, setting) implies setting_of(argument)
        == Some(setting) by {
        law_settings_go_by_their_names(argument, setting);
    }
    if let Some(setting) = setting_of(argument) {
        law_settings_go_by_their_names(argument, setting);
    }
}

/// What a read argument gives to a setting of one name.
pub(crate) proof fn lemma_one_name(argument: Seq<char>, name: Seq<char>)
    requires
        !name.contains('='),
    ensures
        gives(argument, name) ==> given_to(argument, name) == value_part(argument),
{
    lemma_gives(argument, name);
}

// ---------------------------------------------------------------------------
// Settings that add up

pub(crate) proof fn lemma_flags(arguments: Seq<Seq<char>>, count: nat)
    requires
        count <= arguments.len(),
    ensures
        scan(arguments, count) matches Ok(state) ==> {
            &&& state.android.cflags == given(
                arguments,
                "-android-cflag"@,
                "-android-cflag"@,
                count,
            )
            &&& state.android.link_args == given(
                arguments,
                "-android-link-arg"@,
                "-android-link-arg"@,
                count,
            )
        },
    decreases count,
{
    if count > 0 {
        let argument = arguments[count - 1];
        lemma_flags(arguments, (count - 1) as nat);
        lemma_setting_names();
        lemma_makes(argument);
        lemma_one_name(argument, "-android-cflag"@);
        lemma_one_name(argument, "-android-link-arg"@);
        assert(gives(argument, "-android-cflag"@) == makes(argument, Setting::CFlag));
        assert(gives(argument, "-android-link-arg"@) == makes(argument, Setting::LinkArgument));
        lemma_setting_is_no_word(argument);
    }
}

/// An argument that makes a setting is none of the words of this tool.
pub(crate) proof fn lemma_setting_is_no_word(argument: Seq<char>)
    ensures
        setting_of(argument) is Some ==> argument != "zirild"@ && argument != "--target"@,
        name_part(argument) == "--target"@ && find_char(argument, '=') < argument.len()
            ==> setting_of(argument) == Some(Setting::Target),
{
    reveal_strlit("zirild");
    reveal_strlit("--target");
    lemma_setting_names();
    if argument == "zirild"@ || argument == "--target"@ {
        assert forall|i: int| 0 <= i < argument.len() implies argument[i] != '=' by {}
        lemma_find_char_is(argument, '=', argument.len() as int);
    }
}

/// Native flags add up: the C flags and the link arguments of a build are the
/// values of all arguments that give one, in their order.
pub proof fn law_native_flags_add_up(arguments: Seq<Seq<char>>)
    ensures
        parse(arguments) matches Ok(build) ==> {
            &&& build.android.cflags == given(
                arguments,
                "-android-cflag"@,
                "-android-cflag"@,
                arguments.len(),
            )
            &&& build.android.link_args == given(
                arguments,
                "-android-link-arg"@,
                "-android-link-arg"@,
                arguments.len(),
            )
        },
{
    lemma_flags(arguments, arguments.len());
}

// ---------------------------------------------------------------------------
// Settings of which the last counts

pub(crate) proof fn lemma_texts(arguments: Seq<Seq<char>>, count: nat)
    requires
        count <= arguments.len(),
    ensures
        scan(arguments, count) matches Ok(state) ==> {
            &&& state.zig_path == last_of(given(arguments, "-zigpatch"@, "--zig-path"@, count))
            &&& state.android.ndk_path == last_of(
                given(arguments, "--ndk-path"@, "--ndk-path"@, count),
            )
            &&& state.android.ndk_version == last_of(
                given(arguments, "-ndkversion"@, "-ndkversion"@, count),
            )
        },
    decreases count,
{
    if count > 0 {
        let argument = arguments[count - 1];
        lemma_texts(arguments, (count - 1) as nat);
        lemma_setting_names();
        lemma_makes(argument);
        lemma_one_name(argument, "-zigpatch"@);
        lemma_one_name(argument, "--zig-path"@);
        lemma_one_name(argument, "--ndk-path"@);
        lemma_one_name(argument, "-ndkversion"@);
        assert((gives(argument, "-zigpatch"@) || gives(argument, "--zig-path"@)) == makes(
            argument,
            Setting::ZigPath,
        ));
        assert(gives(argument, "--ndk-path"@) == makes(argument, Setting::NdkPath));
        assert(gives(argument, "-ndkversion"@) == makes(argument, Setting::NdkVersion));
        lemma_setting_is_no_word(argument);
    }
}

pub(crate) proof fn lemma_android_texts(arguments: Seq<Seq<char>>, count: nat)
    requires
        count <= arguments.len(),
    ensures
        scan(arguments, count) matches Ok(state) ==> {
            &&& state.android.abi == last_of(
                given(arguments, "-android-abi"@, "-DANDROID_ABI"@, count),
            )
            &&& state.android.stl == last_of(
                given(arguments, "-android-stl"@, "-DANDROID_STL"@, count),
            )
        },
    decreases count,
{
    if count > 0 {
        let argument = arguments[count - 1];
        lemma_android_texts(arguments, (count - 1) as nat);
        lemma_setting_names();
        lemma_makes(argument);
        lemma_one_name(argument, "-android-abi"@);
        lemma_one_name(argument, "-DANDROID_ABI"@);
        lemma_one_name(argument, "-android-stl"@);
        lemma_one_name(argument, "-DANDROID_STL"@);
        assert((gives(argument, "-android-abi"@) || gives(argument, "-DANDROID_ABI"@)) == makes(
            argument,
            Setting::Abi,
        ));
        assert((gives(argument, "-android-stl"@) || gives(argument, "-DANDROID_STL"@)) == makes(
            argument,
            Setting::Stl,
        ));
        lemma_setting_is_no_word(argument);
    }
}

/// Where a path, a version, an ABI or an STL is given more than once, by
/// whichever of its names, the last one counts; it is unset exactly if none is
/// given.
pub proof fn law_last_value_counts(arguments: Seq<Seq<char>>)
    ensures
        parse(arguments) matches Ok(build) ==> {
            let count = arguments.len();
            &&& build.zig_patch == last_of(given(arguments, "-zigpatch"@, "--zig-path"@, count))
            &&& build.android.ndk_path == last_of(
                given(arguments, "--ndk-path"@, "--ndk-path"@, count),
            )
            &&& build.android.ndk_version == last_of(
                given(arguments, "-ndkversion"@, "-ndkversion"@, count),
            )
            &&& build.android.abi == last_of(
                given(arguments, "-android-abi"@, "-DANDROID_ABI"@, count),
            )
            &&& build.android.stl == last_of(
                given(arguments, "-android-stl"@, "-DANDROID_STL"@, count),
            )
        },
{
    lemma_texts(arguments, arguments.len());
    lemma_android_texts(arguments, arguments.len());
}

// ---------------------------------------------------------------------------
// Flags

/// The words of this tool differ and make no setting.
pub(crate) proof fn lemma_own_words()
    ensures
        setting_of("zirild"@) is None,
        setting_of("-ndkfallback"@) is None,
        setting_of("--release"@) is None,
        setting_of("-Z"@) is None,
        setting_of("--zig-release-small"@) is None,
        setting_of("--trace"@) is None,
        setting_of("--"@) is None,
        setting_of("--target"@) is None,
        setting_of("-target"@) is None,
        find_char("zirild"@, '=') == "zirild"@.len(),
        find_char("-ndkfallback"@, '=') == "-ndkfallback"@.len(),
        find_char("--release"@, '=') == "--release"@.len(),
        find_char("-Z"@, '=') == "-Z"@.len(),
        find_char("--zig-release-small"@, '=') == "--zig-release-small"@.len(),
        find_char("--trace"@, '=') == "--trace"@.len(),
        find_char("--"@, '=') == "--"@.len(),
        find_char("--target"@, '=') == "--target"@.len(),
        find_char("-target"@, '=') == "-target"@.len(),
        "zirild"@ != "-ndkfallback"@,
        "zirild"@ != "--release"@,
        "zirild"@ != "-Z"@,
        "zirild"@ != "--zig-release-small"@,
        "zirild"@ != "--trace"@,
        "zirild"@ != "--"@,
        "zirild"@ != "--target"@,
        "zirild"@ != "-target"@,
        "-ndkfallback"@ != "--release"@,
        "-ndkfallback"@ != "-Z"@,
        "-ndkfallback"@ != "--zig-release-small"@,
        "-ndkfallback"@ != "--trace"@,
        "-ndkfallback"@ != "--"@,
        "-ndkfallback"@ != "--target"@,
        "-ndkfallback"@ != "-target"@,
        "--release"@ != "-Z"@,
        "--release"@ != "--zig-release-small"@,
        "--release"@ != "--trace"@,
        "--release"@ != "--"@,
        "--release"@ != "--target"@,
        "--release"@ != "-target"@,
        "-Z"@ != "--zig-release-small"@,
        "-Z"@ != "--trace"@,
        "-Z"@ != "--"@,
        "-Z"@ != "--target"@,
        "-Z"@ != "-target"@,
        "--zig-release-small"@ != "--trace"@,
        "--zig-release-small"@ != "--"@,
        "--zig-release-small"@ != "--target"@,
        "--zig-release-small"@ != "-target"@,
        "--trace"@ != "--"@,
        "--trace"@ != "--target"@,
        "--trace"@ != "-target"@,
        "--"@ != "--target"@,
        "--"@ != "-target"@,
        "--target"@ != "-target"@,
{
    reveal_strlit("zirild");
    reveal_strlit("-ndkfallback");
    reveal_strlit("--release");
    reveal_strlit("-Z");
    reveal_strlit("--zig-release-small");
    reveal_strlit("--trace");
    reveal_strlit("--");
    reveal_strlit("--target");
    reveal_strlit("-target");
    assert("zirild"@.len() == 6 && "-ndkfallback"@.len() == 12 && "--release"@.len() == 9);
    assert("-Z"@.len() == 2 && "--zig-release-small"@.len() == 19 && "--trace"@.len() == 7);
    assert("--"@.len() == 2 && "--target"@.len() == 8 && "-target"@.len() == 7);
    assert("-Z"@[1] == 'Z' && "--"@[1] == '-' && "--trace"@[1] == '-' && "-target"@[1] == 't');
    lemma_find_char_is("zirild"@, '=', "zirild"@.len() as int);
    lemma_find_char_is("-ndkfallback"@, '=', "-ndkfallback"@.len() as int);
    lemma_find_char_is("--release"@, '=', "--release"@.len() as int);
    lemma_find_char_is("-Z"@, '=', "-Z"@.len() as int);
    lemma_find_char_is("--zig-release-small"@, '=', "--zig-release-small"@.len() as int);
    lemma_find_char_is("--trace"@, '=', "--trace"@.len() as int);
    lemma_find_char_is("--"@, '=', "--"@.len() as int);
    lemma_find_char_is("--target"@, '=', "--target"@.len() as int);
    lemma_find_char_is("-target"@, '=', "-target"@.len() as int);
}

/// A word is read among more arguments if it was, or if it is the last of them.
proof fn lemma_reads_next(arguments: Seq<Seq<char>>, word: Seq<char>, count: int)
    requires
        0 < count <= arguments.len(),
    ensures
        reads(arguments, word, count) == (reads(arguments, word, count - 1) || (is_read(
            arguments,
            count - 1,
        ) && arguments[count - 1] == word)),
{
    if reads(arguments, word, count) {
        let i = choose|i: int|
            0 <= i < count && is_read(arguments, i) && #[trigger] arguments[i] == word;
        if i < count - 1 {
            assert(arguments[i] == word);
        }
    }
    if reads(arguments, word, count - 1) {
        let i = choose|i: int|
            0 <= i < count - 1 && is_read(arguments, i) && #[trigger] arguments[i] == word;
        assert(arguments[i] == word);
    }
}

proof fn lemma_read_flags(arguments: Seq<Seq<char>>, count: nat)
    requires
        count <= arguments.len(),
    ensures
        scan(arguments, count) matches Ok(state) ==> {
            &&& state.trace == reads(arguments, "--trace"@, count as int)
            &&& state.release == reads(arguments, "--release"@, count as int)
            &&& state.android.ndk_fallback == reads(arguments, "-ndkfallback"@, count as int)
            &&& state.small == (reads(arguments, "-Z"@, count as int) || reads(
                arguments,
                "--zig-release-small"@,
                count as int,
            ))
        },
    decreases count,
{
    if count > 0 {
        lemma_read_flags(arguments, (count - 1) as nat);
        lemma_own_words();
        lemma_reads_next(arguments, "--trace"@, count as int);
        lemma_reads_next(arguments, "--release"@, count as int);
        lemma_reads_next(arguments, "-ndkfallback"@, count as int);
        lemma_reads_next(arguments, "-Z"@, count as int);
        lemma_reads_next(arguments, "--zig-release-small"@, count as int);
        lemma_setting_is_no_word(arguments[count - 1]);
    }
}

/// A flag is set exactly if one of the arguments that are read is that flag,
/// wherever it stands.
pub proof fn law_flags_count_wherever_they_stand(arguments: Seq<Seq<char>>)
    ensures
        parse(arguments) matches Ok(build) ==> {
            let count = arguments.len() as int;
            &&& build.trace == reads(arguments, "--trace"@, count)
            &&& build.android.ndk_fallback == reads(arguments, "-ndkfallback"@, count)
        },
{
    lemma_read_flags(arguments, arguments.len());
}

proof fn lemma_named_mode(arguments: Seq<Seq<char>>, count: nat)
    requires
        count <= arguments.len(),
    ensures
        scan(arguments, count) matches Ok(state) ==> state.optimize == last_of(
            given(arguments, "-ZigOptimize"@, "--zig-opt"@, count),
        ),
    decreases count,
{
    if count > 0 {
        let argument = arguments[count - 1];
        lemma_named_mode(arguments, (count - 1) as nat);
        lemma_setting_names();
        lemma_makes(argument);
        lemma_one_name(argument, "-ZigOptimize"@);
        lemma_one_name(argument, "--zig-opt"@);
        assert((gives(argument, "-ZigOptimize"@) || gives(argument, "--zig-opt"@)) == makes(
            argument,
            Setting::Optimize,
        ));
        lemma_setting_is_no_word(argument);
    }
}

/// The optimisation mode is the last that is given by name, else the small one
/// if a flag for it is read, else the fast one for `--release`, else the safe
/// one. The first two are choices of the command line's own.
pub proof fn law_mode_goes_by_the_arguments(arguments: Seq<Seq<char>>)
    ensures
        parse(arguments) matches Ok(build) ==> {
            let count = arguments.len() as int;
            let named = given(arguments, "-ZigOptimize"@, "--zig-opt"@, arguments.len());
            let small = reads(arguments, "-Z"@, count) || reads(
                arguments,
                "--zig-release-small"@,
                count,
            );
            &&& build.optimize == if named.len() > 0 {
                named.last()
            } else if small {
                "ReleaseSmall"@
            } else if reads(arguments, "--release"@, count) {
                "ReleaseFast"@
            } else {
                "ReleaseSafe"@
            }
            &&& build.optimize_chosen == (named.len() > 0 || small)
        },
{
    lemma_read_flags(arguments, arguments.len());
    lemma_named_mode(arguments, arguments.len());
}

// ---------------------------------------------------------------------------
// Numbers and runtimes

pub(crate) proof fn lemma_index_and_runtime(arguments: Seq<Seq<char>>, count: nat)
    requires
        count <= arguments.len(),
    ensures
        scan(arguments, count) matches Ok(state) ==> {
            let indices = given(arguments, "-nindx"@, "-nindx"@, count);
            let runtimes = given(arguments, "--windows-runtime"@, "--windows-runtime"@, count);
            &&& state.android.ndk_index is None <==> indices.len() == 0
            &&& state.android.ndk_index matches Some(index) ==> parsed(
                indices.last(),
                usize::MAX as nat,
            ) == Some(index as nat)
            &&& state.windows_runtime is None <==> runtimes.len() == 0
            &&& state.windows_runtime matches Some(runtime) ==> runtimes.last() == match runtime {
                WindowsRuntime::Auto => "auto"@,
                WindowsRuntime::Zig => "zig"@,
                WindowsRuntime::Preserve => "preserve"@,
            }
        },
    decreases count,
{
    if count > 0 {
        let argument = arguments[count - 1];
        lemma_index_and_runtime(arguments, (count - 1) as nat);
        lemma_setting_names();
        lemma_makes(argument);
        lemma_one_name(argument, "-nindx"@);
        lemma_one_name(argument, "--windows-runtime"@);
        assert(gives(argument, "-nindx"@) == makes(argument, Setting::NdkIndex));
        assert(gives(argument, "--windows-runtime"@) == makes(argument, Setting::WindowsRuntime));
        lemma_setting_is_no_word(argument);
    }
}

/// The NDK's index is the number that was given last, and the Windows runtime
/// the one whose word was given last.
pub proof fn law_last_number_and_runtime_count(arguments: Seq<Seq<char>>)
    ensures
        parse(arguments) matches Ok(build) ==> {
            let indices = given(arguments, "-nindx"@, "-nindx"@, arguments.len());
            let runtimes = given(
                arguments,
                "--windows-runtime"@,
                "--windows-runtime"@,
                arguments.len(),
            );
            &&& build.android.ndk_index is None <==> indices.len() == 0
            &&& build.android.ndk_index matches Some(index) ==> parsed(
                indices.last(),
                usize::MAX as nat,
            ) == Some(index as nat)
            &&& build.windows_runtime is None <==> runtimes.len() == 0
            &&& build.windows_runtime matches Some(runtime) ==> runtimes.last() == match runtime {
                WindowsRuntime::Auto => "auto"@,
                WindowsRuntime::Zig => "zig"@,
                WindowsRuntime::Preserve => "preserve"@,
            }
        },
{
    lemma_index_and_runtime(arguments, arguments.len());
}

/// The number of an API level: behind `android-`, if that stands in front.
pub open spec fn level_text(value: Seq<char>) -> Seq<char> {
    if exists|rest: Seq<char>| value == #[trigger] ("android-"@ + rest) {
        value.skip(8)
    } else {
        value
    }
}

pub(crate) proof fn lemma_level_text(value: Seq<char>)
    ensures
        api_level_text(value) == level_text(value),
{
    reveal_strlit("android-");
    assert("android-"@.len() == 8);
    if "android-"@.is_prefix_of(value) {
        assert(value.take(8) == "android-"@);
        assert(value =~= "android-"@ + value.skip(8));
    }
    if exists|rest: Seq<char>| value == #[trigger] ("android-"@ + rest) {
        let rest = choose|rest: Seq<char>| value == #[trigger] ("android-"@ + rest);
        assert(value.take(8) =~= "android-"@);
    }
}

pub(crate) proof fn lemma_levels(arguments: Seq<Seq<char>>, count: nat)
    requires
        count <= arguments.len(),
    ensures
        scan(arguments, count) matches Ok(state) ==> {
            let levels = given(arguments, "-android-api"@, "-DANDROID_PLATFORM"@, count);
            &&& state.android.api_level is None <==> levels.len() == 0
            &&& state.android.api_level matches Some(level) ==> level > 0 && forall|k: int|
                0 <= k < levels.len() ==> parsed(level_text(#[trigger] levels[k]), 0xffff_ffff)
                    == Some(level as nat)
        },
    decreases count,
{
    if count > 0 {
        let argument = arguments[count - 1];
        lemma_levels(arguments, (count - 1) as nat);
        lemma_setting_names();
        lemma_makes(argument);
        lemma_one_name(argument, "-android-api"@);
        lemma_one_name(argument, "-DANDROID_PLATFORM"@);
        assert((gives(argument, "-android-api"@) || gives(argument, "-DANDROID_PLATFORM"@))
            == makes(argument, Setting::ApiLevel));
        lemma_setting_is_no_word(argument);
        lemma_level_text(value_part(argument));
    }
}

/// Every API level that is given, by whichever name and with `android-` in front
/// or without, is the number that the build has, which is above zero.
pub proof fn law_given_levels_agree(arguments: Seq<Seq<char>>)
    ensures
        parse(arguments) matches Ok(build) ==> {
            let levels = given(
                arguments,
                "-android-api"@,
                "-DANDROID_PLATFORM"@,
                arguments.len(),
            );
            &&& build.android.api_level is None <==> levels.len() == 0
            &&& build.android.api_level matches Some(level) ==> level > 0 && forall|k: int|
                0 <= k < levels.len() ==> parsed(level_text(#[trigger] levels[k]), 0xffff_ffff)
                    == Some(level as nat)
        },
{
    lemma_levels(arguments, arguments.len());
}

// ---------------------------------------------------------------------------
// The target

pub(crate) proof fn lemma_target(arguments: Seq<Seq<char>>, count: nat)
    requires
        count <= arguments.len(),
    ensures
        scan(arguments, count) matches Ok(state) ==> (state.command != Some("asm"@) || given(
            arguments,
            "--target"@,
            "--target"@,
            count,
        ).len() == 0) ==> state.target == last_of(
            given(arguments, "-target"@, "--target"@, count),
        ),
    decreases count,
{
    if count > 0 {
        let argument = arguments[count - 1];
        lemma_target(arguments, (count - 1) as nat);
        lemma_setting_names();
        lemma_makes(argument);
        lemma_one_name(argument, "-target"@);
        lemma_one_name(argument, "--target"@);
        lemma_gives(argument, "-target"@);
        lemma_gives(argument, "--target"@);
        assert((gives(argument, "-target"@) || gives(argument, "--target"@)) == makes(
            argument,
            Setting::Target,
        ));
        lemma_setting_is_no_word(argument);
    }
}

/// The target is the one that was given last, for Cargo as its Rust triple and
/// for Zig in its spelling, with a point and the API level behind that of an
/// Android target. Left out are command lines that give `asm` a target.
pub proof fn law_last_target_counts(arguments: Seq<Seq<char>>)
    ensures
        parse(arguments) matches Ok(build) ==> (build.cargo_command != "asm"@ || given(
            arguments,
            "--target"@,
            "--target"@,
            arguments.len(),
        ).len() == 0) ==> {
            let targets = given(arguments, "-target"@, "--target"@, arguments.len());
            &&& targets.len() > 0
            &&& targets.last().len() > 0
            &&& build.cargo_target == cargo_target(targets.last())
            &&& build.zig_target == if is_android(build.cargo_target)
                && build.android.api_level is Some {
                zig_target(targets.last()) + seq!['.'] + numeral(
                    build.android.api_level->0 as nat,
                )
            } else {
                zig_target(targets.last())
            }
        },
{
    lemma_target(arguments, arguments.len());
    reveal_strlit(".");
    assert("."@ =~= seq!['.']);
}

} // verus!
