//! Which arguments select the command, which reach Cargo, and which are refused.

use vstd::prelude::*;

use crate::arguments::{
    at_argument, is_cargo_command, is_read, name_part, parse, scan, setting_of, step, value_part,
    BuildSettings, ParseState, Setting,
};
use crate::decimal::{numeral, parsed};
use crate::reading_laws::{given_to, gives, lemma_gives, lemma_setting_names, makes};
use crate::settings_laws::{
    given, last_of, lemma_android_texts, lemma_index_and_runtime, lemma_level_text, lemma_levels,
    lemma_makes, lemma_one_name, lemma_own_words, lemma_setting_is_no_word, lemma_texts, level_text,
};
use crate::target::{android_abi, cargo_target, is_android, zig_target};
use crate::text::{lemma_find_char, lemma_find_char_is};

verus! {

// ---------------------------------------------------------------------------
// The command

/// The Cargo commands that can be selected.
pub open spec fn commands() -> Seq<Seq<char>> {
    seq![
        "build"@,
        "check"@,
        "run"@,
        "test"@,
        "bench"@,
        "rustc"@,
        "clippy"@,
        "doc"@,
        "asm"@,
    ]
}

/// Whether an argument makes a setting of this tool.
pub open spec fn is_setting(argument: Seq<char>) -> bool {
    exists|setting: Setting| #[trigger] makes(argument, setting)
}

/// Whether an argument is understood by this tool: a setting, one of its flags,
/// its own name, or the profile that it shares with Cargo.
pub open spec fn is_own(argument: Seq<char>) -> bool {
    ||| is_setting(argument)
    ||| argument == "zirild"@ || argument == "-ndkfallback"@ || argument == "-Z"@
    ||| argument == "--zig-release-small"@ || argument == "--trace"@ || argument == "--release"@
}

/// Whether a position is that of the first argument which is not this tool's
/// own, or the end where all are.
pub open spec fn is_first_foreign(arguments: Seq<Seq<char>>, at: int) -> bool {
    &&& 0 <= at <= arguments.len()
    &&& forall|j: int| 0 <= j < at ==> is_own(#[trigger] arguments[j])
    &&& at < arguments.len() ==> !is_own(arguments[at])
}

/// Whether the argument at a position selects the command.
pub open spec fn selects(arguments: Seq<Seq<char>>, at: int) -> bool {
    at < arguments.len() && commands().contains(arguments[at])
}

pub(crate) proof fn lemma_commands(word: Seq<char>)
    ensures
        commands().contains(word) <==> is_cargo_command(word),
        is_cargo_command(word) ==> word != "zirild"@ && word != "-ndkfallback"@ && word
            != "--release"@ && word != "-Z"@ && word != "--zig-release-small"@ && word != "--trace"@
            && word != "--"@ && word != "--target"@ && word != "-target"@,
        is_cargo_command(word) ==> setting_of(word) is None,
        "asm"@ != "build"@,
{
    let all = commands();
    assert(all[0] == "build"@ && all[1] == "check"@ && all[2] == "run"@ && all[3] == "test"@);
    assert(all[4] == "bench"@ && all[5] == "rustc"@ && all[6] == "clippy"@ && all[7] == "doc"@);
    assert(all[8] == "asm"@);
    reveal_strlit("build");
    reveal_strlit("check");
    reveal_strlit("run");
    reveal_strlit("test");
    reveal_strlit("bench");
    reveal_strlit("rustc");
    reveal_strlit("clippy");
    reveal_strlit("doc");
    reveal_strlit("asm");
    reveal_strlit("zirild");
    reveal_strlit("-ndkfallback");
    reveal_strlit("--release");
    reveal_strlit("-Z");
    reveal_strlit("--zig-release-small");
    reveal_strlit("--trace");
    reveal_strlit("--");
    reveal_strlit("--target");
    reveal_strlit("-target");
    assert("asm"@.len() == 3 && "build"@.len() == 5);
    if is_cargo_command(word) {
        assert(word[0] != '-' && word[0] != 'z');
        assert("-ndkfallback"@[0] == '-' && "--release"@[0] == '-' && "-Z"@[0] == '-');
        assert("--zig-release-small"@[0] == '-' && "--trace"@[0] == '-' && "--"@[0] == '-');
        assert("--target"@[0] == '-' && "-target"@[0] == '-' && "zirild"@[0] == 'z');
        assert forall|i: int| 0 <= i < word.len() implies word[i] != '=' by {}
        lemma_find_char_is(word, '=', word.len() as int);
    }
}

proof fn lemma_is_setting(argument: Seq<char>)
    ensures
        is_setting(argument) <==> setting_of(argument) is Some,
{
    lemma_makes(argument);
    if let Some(setting) = setting_of(argument) {
        assert(makes(argument, setting));
    }
}

/// In front of the first foreign argument nothing is selected or begun.
proof fn lemma_own_arguments(arguments: Seq<Seq<char>>, at: int, count: nat)
    requires
        is_first_foreign(arguments, at),
        count <= at,
    ensures
        scan(arguments, count) matches Ok(state) ==> state.command is None && !state.cargo_begun
            && at_argument(state),
    decreases count,
{
    if count > 0 {
        let argument = arguments[count - 1];
        lemma_own_arguments(arguments, at, (count - 1) as nat);
        assert(is_own(argument));
        lemma_is_setting(argument);
        lemma_own_words();
        lemma_setting_is_no_word(argument);
    }
}

/// Behind the first foreign argument the command is settled.
proof fn lemma_command_behind(arguments: Seq<Seq<char>>, at: int, count: nat)
    requires
        is_first_foreign(arguments, at),
        at < count <= arguments.len(),
    ensures
        scan(arguments, count) matches Ok(state) ==> {
            &&& state.command == if selects(arguments, at) {
                Some(arguments[at])
            } else {
                None
            }
            &&& state.command is Some || state.cargo_begun || state.passthrough
        },
    decreases count,
{
    let argument = arguments[count - 1];
    if count == at + 1 {
        lemma_own_arguments(arguments, at, at as nat);
        lemma_commands(argument);
        lemma_is_setting(argument);
        lemma_own_words();
        lemma_setting_is_no_word(argument);
    } else {
        lemma_command_behind(arguments, at, (count - 1) as nat);
    }
}

/// The command is the first argument that is not this tool's own, if that is one
/// of Cargo's commands. Otherwise it is `build`, whatever stands behind.
pub proof fn law_first_foreign_argument_selects(arguments: Seq<Seq<char>>, at: int)
    requires
        is_first_foreign(arguments, at),
    ensures
        parse(arguments) matches Ok(build) ==> build.cargo_command == if selects(arguments, at) {
            arguments[at]
        } else {
            "build"@
        },
{
    if at < arguments.len() {
        lemma_command_behind(arguments, at, arguments.len());
    } else {
        lemma_own_arguments(arguments, at, arguments.len());
    }
}

// ---------------------------------------------------------------------------
// What reaches Cargo

/// Whether an argument reaches Cargo: what is not read as an argument does, and
/// so does what this tool does not understand itself, but for the command. The
/// tool's own name does behind a command, and `asm` gets its targets.
pub open spec fn reaches_cargo(arguments: Seq<Seq<char>>, at: int, k: int) -> bool {
    let argument = arguments[k];
    let behind_command = selects(arguments, at) && k > at;
    ||| !is_read(arguments, k)
    ||| argument == "--release"@
    ||| !is_own(argument) && !(selects(arguments, at) && k == at)
    ||| argument == "zirild"@ && behind_command
    ||| gives(argument, "--target"@) && behind_command && arguments[at] == "asm"@
}

proof fn lemma_reach_step(
    arguments: Seq<Seq<char>>,
    at: int,
    k: int,
    state: ParseState,
    next: ParseState,
)
    requires
        is_first_foreign(arguments, at),
        0 <= k < arguments.len(),
        scan(arguments, k as nat) == Ok::<ParseState, Seq<char>>(state),
        step(state, arguments[k], k) == Ok::<ParseState, Seq<char>>(next),
    ensures
        next.forwarded == if reaches_cargo(arguments, at, k) {
            state.forwarded.push(k)
        } else {
            state.forwarded
        },
{
    let argument = arguments[k];
    if k <= at {
        lemma_own_arguments(arguments, at, k as nat);
    } else {
        lemma_command_behind(arguments, at, k as nat);
    }
    lemma_commands(argument);
    lemma_is_setting(argument);
    lemma_own_words();
    lemma_setting_is_no_word(argument);
    lemma_setting_names();
    lemma_gives(argument, "--target"@);
    assert(is_read(arguments, k) == at_argument(state));
    if at < arguments.len() {
        lemma_commands(arguments[at]);
    }
}

proof fn lemma_reach(arguments: Seq<Seq<char>>, at: int, count: nat)
    requires
        is_first_foreign(arguments, at),
        count <= arguments.len(),
    ensures
        scan(arguments, count) matches Ok(state) ==> forall|k: int|
            #[trigger] state.forwarded.contains(k) <==> 0 <= k < count && reaches_cargo(
                arguments,
                at,
                k,
            ),
    decreases count,
{
    if count > 0 {
        lemma_reach(arguments, at, (count - 1) as nat);
        if let Ok(state) = scan(arguments, (count - 1) as nat) {
            if let Ok(next) = step(state, arguments[count - 1], count - 1) {
                lemma_reach_step(arguments, at, count - 1, state, next);
                assert forall|k: int| #[trigger] next.forwarded.contains(k) <==> 0 <= k < count
                    && reaches_cargo(arguments, at, k) by {
                    assert(state.forwarded.contains(k) <==> 0 <= k < count - 1 && reaches_cargo(
                        arguments,
                        at,
                        k,
                    ));
                    if next.forwarded != state.forwarded {
                        let more = state.forwarded.push(count - 1);
                        assert(next.forwarded == more);
                        assert(more[state.forwarded.len() as int] == count - 1);
                        if state.forwarded.contains(k) {
                            let m = choose|m: int|
                                0 <= m < state.forwarded.len() && state.forwarded[m] == k;
                            assert(more[m] == k);
                        }
                        if more.contains(k) && k != count - 1 {
                            let m = choose|m: int| 0 <= m < more.len() && more[m] == k;
                            assert(state.forwarded[m] == k);
                        }
                    }
                }
            }
        }
    }
}

/// Exactly the arguments reach Cargo that are not this tool's own, those behind
/// `--` and the values of Cargo's options among them.
pub proof fn law_exactly_these_arguments_reach_cargo(
    arguments: Seq<Seq<char>>,
    at: int,
    k: int,
)
    requires
        is_first_foreign(arguments, at),
        0 <= k < arguments.len(),
    ensures
        parse(arguments) matches Ok(build) ==> (build.cargo_positions.contains(k)
            <==> reaches_cargo(arguments, at, k)),
{
    lemma_reach(arguments, at, arguments.len());
}

// ---------------------------------------------------------------------------
// What is refused

/// What an argument gives by one of two names.
pub open spec fn given_by(argument: Seq<char>, one: Seq<char>, other: Seq<char>) -> Seq<char> {
    if gives(argument, one) {
        given_to(argument, one)
    } else {
        given_to(argument, other)
    }
}

/// Whether an argument gives nothing to a setting that needs something.
pub open spec fn gives_nothing(argument: Seq<char>) -> bool {
    ||| argument == "-zigpatch="@ || argument == "--zig-path="@ || argument == "--ndk-path="@
    ||| argument == "-ndkversion="@ || argument == "-android-abi="@ || argument == "-DANDROID_ABI="@
    ||| argument == "-android-stl="@ || argument == "-DANDROID_STL="@
    ||| argument == "-android-cflag="@ || argument == "-android-link-arg="@
}

/// Whether the argument at a position is refused where it is read: a target by
/// itself, a setting without its value or with one that it cannot have, or an
/// API level that is not the one given before.
pub open spec fn is_refused(arguments: Seq<Seq<char>>, at: int, i: int) -> bool {
    let argument = arguments[i];
    let mode = given_by(argument, "-ZigOptimize"@, "--zig-opt"@);
    let runtime = given_to(argument, "--windows-runtime"@);
    let level = parsed(
        level_text(given_by(argument, "-android-api"@, "-DANDROID_PLATFORM"@)),
        0xffff_ffff,
    );
    let levels = given(arguments, "-android-api"@, "-DANDROID_PLATFORM"@, i as nat);
    ||| argument == "-target"@
    ||| argument == "--target"@ && !(selects(arguments, at) && arguments[at] == "asm"@ && i > at)
    ||| gives_nothing(argument)
    ||| makes(argument, Setting::Optimize) && mode != "Debug"@ && mode != "ReleaseSafe"@ && mode
        != "ReleaseFast"@ && mode != "ReleaseSmall"@
    ||| makes(argument, Setting::WindowsRuntime) && runtime != "auto"@ && runtime != "zig"@
        && runtime != "preserve"@
    ||| makes(argument, Setting::NdkIndex) && parsed(
        given_to(argument, "-nindx"@),
        usize::MAX as nat,
    ) is None
    ||| makes(argument, Setting::ApiLevel) && (level is None || level == Some(0nat) || (levels.len()
        > 0 && parsed(level_text(levels[0]), 0xffff_ffff) != level))
}

proof fn lemma_gives_nothing(argument: Seq<char>, name: Seq<char>, whole: Seq<char>)
    requires
        whole == name + seq!['='],
        !name.contains('='),
    ensures
        gives(argument, name) && value_part(argument).len() == 0 <==> argument == whole,
{
    lemma_gives(argument, name);
    if gives(argument, name) && value_part(argument).len() == 0 {
        assert(argument.take(whole.len() as int) == whole);
        assert(argument.len() == whole.len());
        assert(argument =~= argument.take(whole.len() as int));
    }
    if argument == whole {
        assert(argument.take(whole.len() as int) =~= whole);
    }
}

proof fn lemma_empty_settings(argument: Seq<char>)
    ensures
        gives_nothing(argument) <==> value_part(argument).len() == 0 && (makes(
            argument,
            Setting::ZigPath,
        ) || makes(argument, Setting::NdkPath) || makes(argument, Setting::NdkVersion) || makes(
            argument,
            Setting::Abi,
        ) || makes(argument, Setting::Stl) || makes(argument, Setting::CFlag) || makes(
            argument,
            Setting::LinkArgument,
        )),
{
    lemma_setting_names();
    reveal_strlit("-zigpatch");
    reveal_strlit("-zigpatch=");
    reveal_strlit("--zig-path");
    reveal_strlit("--zig-path=");
    reveal_strlit("--ndk-path");
    reveal_strlit("--ndk-path=");
    reveal_strlit("-ndkversion");
    reveal_strlit("-ndkversion=");
    reveal_strlit("-android-abi");
    reveal_strlit("-android-abi=");
    reveal_strlit("-DANDROID_ABI");
    reveal_strlit("-DANDROID_ABI=");
    reveal_strlit("-android-stl");
    reveal_strlit("-android-stl=");
    reveal_strlit("-DANDROID_STL");
    reveal_strlit("-DANDROID_STL=");
    reveal_strlit("-android-cflag");
    reveal_strlit("-android-cflag=");
    reveal_strlit("-android-link-arg");
    reveal_strlit("-android-link-arg=");
    assert("-zigpatch="@ =~= "-zigpatch"@ + seq!['=']);
    assert("--zig-path="@ =~= "--zig-path"@ + seq!['=']);
    assert("--ndk-path="@ =~= "--ndk-path"@ + seq!['=']);
    assert("-ndkversion="@ =~= "-ndkversion"@ + seq!['=']);
    assert("-android-abi="@ =~= "-android-abi"@ + seq!['=']);
    assert("-DANDROID_ABI="@ =~= "-DANDROID_ABI"@ + seq!['=']);
    assert("-android-stl="@ =~= "-android-stl"@ + seq!['=']);
    assert("-DANDROID_STL="@ =~= "-DANDROID_STL"@ + seq!['=']);
    assert("-android-cflag="@ =~= "-android-cflag"@ + seq!['=']);
    assert("-android-link-arg="@ =~= "-android-link-arg"@ + seq!['=']);
    lemma_gives_nothing(argument, "-zigpatch"@, "-zigpatch="@);
    lemma_gives_nothing(argument, "--zig-path"@, "--zig-path="@);
    lemma_gives_nothing(argument, "--ndk-path"@, "--ndk-path="@);
    lemma_gives_nothing(argument, "-ndkversion"@, "-ndkversion="@);
    lemma_gives_nothing(argument, "-android-abi"@, "-android-abi="@);
    lemma_gives_nothing(argument, "-DANDROID_ABI"@, "-DANDROID_ABI="@);
    lemma_gives_nothing(argument, "-android-stl"@, "-android-stl="@);
    lemma_gives_nothing(argument, "-DANDROID_STL"@, "-DANDROID_STL="@);
    lemma_gives_nothing(argument, "-android-cflag"@, "-android-cflag="@);
    lemma_gives_nothing(argument, "-android-link-arg"@, "-android-link-arg="@);
}

proof fn lemma_refusal_step(arguments: Seq<Seq<char>>, at: int, k: int, state: ParseState)
    requires
        is_first_foreign(arguments, at),
        0 <= k < arguments.len(),
        scan(arguments, k as nat) == Ok::<ParseState, Seq<char>>(state),
    ensures
        step(state, arguments[k], k) is Err <==> is_read(arguments, k) && is_refused(
            arguments,
            at,
            k,
        ),
{
    let argument = arguments[k];
    if k <= at {
        lemma_own_arguments(arguments, at, k as nat);
    } else {
        lemma_command_behind(arguments, at, k as nat);
    }
    lemma_own_words();
    lemma_makes(argument);
    lemma_setting_is_no_word(argument);
    lemma_setting_names();
    lemma_gives(argument, "--target"@);
    lemma_one_name(argument, "-ZigOptimize"@);
    lemma_one_name(argument, "--zig-opt"@);
    lemma_one_name(argument, "--windows-runtime"@);
    lemma_one_name(argument, "-nindx"@);
    lemma_one_name(argument, "-android-api"@);
    lemma_one_name(argument, "-DANDROID_PLATFORM"@);
    lemma_level_text(value_part(argument));
    lemma_levels(arguments, k as nat);
    lemma_empty_settings(argument);
    assert(is_read(arguments, k) == at_argument(state));
    let levels = given(arguments, "-android-api"@, "-DANDROID_PLATFORM"@, k as nat);
    if levels.len() > 0 {
        assert(parsed(level_text(levels[0]), 0xffff_ffff) == Some(
            state.android.api_level->0 as nat,
        ));
    }
    assert(!is_setting(argument) ==> !gives_nothing(argument));
}

proof fn lemma_refused(arguments: Seq<Seq<char>>, at: int, count: nat)
    requires
        is_first_foreign(arguments, at),
        count <= arguments.len(),
    ensures
        scan(arguments, count) is Err <==> exists|i: int|
            #![trigger arguments[i]]
            0 <= i < count && is_read(arguments, i) && is_refused(arguments, at, i),
    decreases count,
{
    if count > 0 {
        lemma_refused(arguments, at, (count - 1) as nat);
        if let Ok(state) = scan(arguments, (count - 1) as nat) {
            lemma_refusal_step(arguments, at, count - 1, state);
            if step(state, arguments[count - 1], count - 1) is Err {
                assert(is_refused(arguments, at, count - 1));
                let argument = arguments[count - 1];
            }
        } else {
            let i = choose|i: int|
                #![trigger arguments[i]]
                0 <= i < count - 1 && is_read(arguments, i) && is_refused(arguments, at, i);
            let argument = arguments[i];
        }
    }
}

/// The targets that arguments give. `asm` takes those given to `--target` behind
/// it for itself.
pub open spec fn targets_of(arguments: Seq<Seq<char>>, at: int, count: nat) -> Seq<Seq<char>>
    decreases count,
{
    if count == 0 {
        Seq::empty()
    } else {
        let before = targets_of(arguments, at, (count - 1) as nat);
        let argument = arguments[count - 1];
        let is_for_asm = selects(arguments, at) && arguments[at] == "asm"@ && count - 1 > at;
        if !is_read(arguments, count - 1) {
            before
        } else if gives(argument, "-target"@) {
            before.push(given_to(argument, "-target"@))
        } else if gives(argument, "--target"@) && !is_for_asm {
            before.push(given_to(argument, "--target"@))
        } else {
            before
        }
    }
}

proof fn lemma_targets_of(arguments: Seq<Seq<char>>, at: int, count: nat)
    requires
        is_first_foreign(arguments, at),
        count <= arguments.len(),
    ensures
        scan(arguments, count) matches Ok(state) ==> state.target == last_of(
            targets_of(arguments, at, count),
        ),
    decreases count,
{
    if count > 0 {
        let argument = arguments[count - 1];
        lemma_targets_of(arguments, at, (count - 1) as nat);
        if count - 1 <= at {
            lemma_own_arguments(arguments, at, (count - 1) as nat);
        } else {
            lemma_command_behind(arguments, at, (count - 1) as nat);
        }
        lemma_setting_names();
        lemma_makes(argument);
        lemma_gives(argument, "-target"@);
        lemma_gives(argument, "--target"@);
        assert((gives(argument, "-target"@) || gives(argument, "--target"@)) == makes(
            argument,
            Setting::Target,
        ));
        lemma_setting_is_no_word(argument);
        if gives(argument, "-target"@) {
            reveal_strlit("-target");
            reveal_strlit("--target");
            assert("-target"@.len() == 7 && "--target"@.len() == 8);
        }
    }
}

/// The last target that is given is built for, by its Rust triple, and by its
/// spelling for Zig with the API level of an Android build behind it.
pub proof fn law_last_given_target_is_built(arguments: Seq<Seq<char>>, at: int)
    requires
        is_first_foreign(arguments, at),
    ensures
        parse(arguments) matches Ok(build) ==> {
            let targets = targets_of(arguments, at, arguments.len());
            &&& targets.len() > 0 && targets.last().len() > 0
            &&& build.cargo_target == cargo_target(targets.last())
            &&& build.zig_target == zig_target(targets.last()) + if is_android(build.cargo_target)
                && build.android.api_level is Some {
                seq!['.'] + numeral(build.android.api_level->0 as nat)
            } else {
                Seq::empty()
            }
        },
{
    lemma_targets_of(arguments, at, arguments.len());
    reveal_strlit(".");
    assert("."@ =~= seq!['.']);
    if let Ok(build) = parse(arguments) {
        let target = targets_of(arguments, at, arguments.len()).last();
        let level = numeral(build.android.api_level->0 as nat);
        assert(zig_target(target) + seq!['.'] + level =~= zig_target(target) + (seq!['.'] + level));
        assert(zig_target(target) + Seq::<char>::empty() =~= zig_target(target));
    }
}

/// A command line is accepted exactly if no argument that is read is refused, a
/// target was given that is not empty, and for an Android target the NDK is not
/// selected in two ways and the ABI, where one was given, is the target's.
pub proof fn law_accepted_exactly(arguments: Seq<Seq<char>>, at: int)
    requires
        is_first_foreign(arguments, at),
    ensures
        ({
            let count = arguments.len();
            let targets = targets_of(arguments, at, count);
            let triple = cargo_target(targets.last());
            let versions = given(arguments, "-ndkversion"@, "-ndkversion"@, count);
            let indices = given(arguments, "-nindx"@, "-nindx"@, count);
            let abis = given(arguments, "-android-abi"@, "-DANDROID_ABI"@, count);
            parse(arguments) is Ok <==> {
                &&& forall|i: int|
                    #![trigger arguments[i]]
                    0 <= i < count && is_read(arguments, i) ==> !is_refused(arguments, at, i)
                &&& targets.len() > 0 && targets.last().len() > 0
                &&& is_android(triple) ==> {
                    &&& versions.len() == 0 || indices.len() == 0
                    &&& abis.len() > 0 ==> android_abi(triple) == Some(abis.last())
                }
            }
        }),
{
    let count = arguments.len();
    lemma_refused(arguments, at, count);
    if let Ok(state) = scan(arguments, count) {
        lemma_targets_of(arguments, at, count);
        lemma_texts(arguments, count);
        lemma_android_texts(arguments, count);
        lemma_index_and_runtime(arguments, count);
    }
}

// ---------------------------------------------------------------------------
// What refusals say

/// What is said of an argument that is refused where it is read.
pub open spec fn complaint(arguments: Seq<Seq<char>>, i: int) -> Seq<char> {
    let argument = arguments[i];
    let modes = "'; use Debug, ReleaseSafe, ReleaseFast, or ReleaseSmall"@;
    if argument == "-target"@ || argument == "--target"@ {
        "use -target=<zig-target>, not a separate Cargo --target"@
    } else if gives(argument, "-ZigOptimize"@) {
        "invalid "@ + "-ZigOptimize"@ + " '"@ + given_to(argument, "-ZigOptimize"@) + modes
    } else if gives(argument, "--zig-opt"@) {
        "invalid "@ + "--zig-opt"@ + " '"@ + given_to(argument, "--zig-opt"@) + modes
    } else if gives(argument, "--windows-runtime"@) {
        "invalid "@ + "--windows-runtime"@ + " '"@ + given_to(argument, "--windows-runtime"@)
            + "'; use auto, zig, or preserve"@
    } else if gives(argument, "-nindx"@) {
        "invalid -nindx '"@ + given_to(argument, "-nindx"@)
            + "'; use a non-negative integer (0 = newest)"@
    } else if makes(argument, Setting::ApiLevel) {
        let text = level_text(given_by(argument, "-android-api"@, "-DANDROID_PLATFORM"@));
        let levels = given(arguments, "-android-api"@, "-DANDROID_PLATFORM"@, i as nat);
        match parsed(text, 0xffff_ffff) {
            None => "invalid Android API level '"@ + text + "'"@,
            Some(level) => if level == 0 {
                "Android API level must be greater than zero"@
            } else {
                "conflicting Android API levels: android-"@ + numeral(
                    parsed(level_text(levels[0]), 0xffff_ffff)->0,
                ) + " and android-"@ + numeral(level)
            },
        }
    } else {
        argument.drop_last() + " cannot be empty"@
    }
}

proof fn lemma_complaint(arguments: Seq<Seq<char>>, i: int, state: ParseState)
    requires
        0 <= i < arguments.len(),
        scan(arguments, i as nat) == Ok::<ParseState, Seq<char>>(state),
        step(state, arguments[i], i) is Err,
    ensures
        step(state, arguments[i], i) == Err::<ParseState, Seq<char>>(complaint(arguments, i)),
{
    let argument = arguments[i];
    lemma_own_words();
    lemma_makes(argument);
    lemma_setting_is_no_word(argument);
    lemma_setting_names();
    lemma_gives(argument, "-ZigOptimize"@);
    lemma_gives(argument, "--zig-opt"@);
    lemma_gives(argument, "--windows-runtime"@);
    lemma_gives(argument, "-nindx"@);
    lemma_gives(argument, "-android-api"@);
    lemma_gives(argument, "-DANDROID_PLATFORM"@);
    lemma_level_text(value_part(argument));
    lemma_levels(arguments, i as nat);
    let levels = given(arguments, "-android-api"@, "-DANDROID_PLATFORM"@, i as nat);
    if levels.len() > 0 {
        assert(parsed(level_text(levels[0]), 0xffff_ffff) == Some(
            state.android.api_level->0 as nat,
        ));
    }
    lemma_find_char(argument, '=');
    if setting_of(argument) is Some && value_part(argument).len() == 0 {
        assert(argument.drop_last() =~= name_part(argument));
    }
}

proof fn lemma_first_refusal_stays(arguments: Seq<Seq<char>>, first: nat, count: nat)
    requires
        first <= count <= arguments.len(),
        scan(arguments, first) is Err,
    ensures
        scan(arguments, count) == scan(arguments, first),
    decreases count,
{
    if count > first {
        lemma_first_refusal_stays(arguments, first, (count - 1) as nat);
    }
}

/// The first argument that is refused is the one complained of, by its own text.
pub proof fn law_first_refused_argument_is_named(arguments: Seq<Seq<char>>, i: int)
    requires
        0 <= i < arguments.len(),
        is_read(arguments, i),
        scan(arguments, (i + 1) as nat) is Err,
    ensures
        parse(arguments) == Err::<BuildSettings, Seq<char>>(complaint(arguments, i)),
{
    let state = scan(arguments, i as nat)->Ok_0;
    assert(scan(arguments, (i + 1) as nat) == step(state, arguments[i], i));
    lemma_complaint(arguments, i, state);
    lemma_first_refusal_stays(arguments, (i + 1) as nat, arguments.len());
}

/// Where no argument is refused it is said what is missing or does not agree.
pub proof fn law_missing_and_conflicting_settings_are_named(
    arguments: Seq<Seq<char>>,
    at: int,
)
    requires
        is_first_foreign(arguments, at),
        scan(arguments, arguments.len()) is Ok,
    ensures
        ({
            let count = arguments.len();
            let targets = targets_of(arguments, at, count);
            let triple = cargo_target(targets.last());
            let versions = given(arguments, "-ndkversion"@, "-ndkversion"@, count);
            let indices = given(arguments, "-nindx"@, "-nindx"@, count);
            let abis = given(arguments, "-android-abi"@, "-DANDROID_ABI"@, count);
            parse(arguments) matches Err(message) ==> message == if targets.len() == 0 {
                "missing required -target=<zig-target>"@
            } else if targets.last().len() == 0 {
                "-target cannot be empty"@
            } else if versions.len() > 0 && indices.len() > 0 {
                "use either -ndkversion or -nindx, not both"@
            } else {
                "Android ABI '"@ + abis.last() + "' does not match target "@ + triple + "; use "@
                    + android_abi(triple)->0
            }
        }),
{
    let count = arguments.len();
    lemma_targets_of(arguments, at, count);
    lemma_texts(arguments, count);
    lemma_android_texts(arguments, count);
    lemma_index_and_runtime(arguments, count);
}

} // verus!
