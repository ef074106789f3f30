//! What the driver makes of a build, said of the texts themselves.

use vstd::prelude::*;

use crate::arguments::{is_read, parse, reads_word, BuildSettings};
use crate::cargo::{
    android_environment, android_warnings, announcement, cargo_environment, cargo_leading,
    linking_environment, tool_environment, variable_if, wrapper_environment, NdkIdentity, ValueText,
};
use crate::decimal::{numeral, parsed};
use crate::driver::{accepted_build, asks};
use crate::exit::{exit_message, Exit};
use crate::invocation::{
    mode_name, rewrite_for, setup, tool_family, ResponseRewrite, WrapperVariables,
};
use crate::ndk::{ndk_homes, ndk_source_name, NdkSource};
use crate::options::{
    android_refusal, requested_api_level, runtime_name, AndroidSettings, WindowsRuntime,
};
use crate::steps::{following, is_over, is_run, DriverStep};
use crate::target::{is_android, is_msvc, is_windows_gnu, musl_target};
use crate::target_laws::{law_android_has_four_triples, law_part_stands_between};
use crate::text::{contains, first_present, joined, lowered, replaced, uppered};
use crate::tool_laws::law_rules_follow_the_environment;
use crate::wrapper::WrapperMode;
use crate::zig::{zig_homes, zig_names, zig_refusal, zig_source_name, ZigSource};

verus! {

// ---------------------------------------------------------------------------
// Requests

/// Help is asked for by either word in front of the first `--`, wherever it
/// stands there, and by nothing else.
pub proof fn law_help_is_asked_for_by_word(arguments: Seq<Seq<char>>, front: int)
    requires
        0 <= front <= arguments.len(),
        forall|j: int| 0 <= j < front ==> #[trigger] arguments[j] != "--"@,
        front < arguments.len() ==> arguments[front] == "--"@,
    ensures
        asks(arguments, "--help"@, "-h"@) <==> arguments.take(front).contains("--help"@)
            || arguments.take(front).contains("-h"@),
{
    reveal_strlit("--");
    reveal_strlit("--help");
    reveal_strlit("-h");
    assert("--"@[1] == '-' && "-h"@[1] == 'h');
    assert("--"@.len() == 2 && "--help"@.len() == 6);
    let list = arguments.take(front);
    if asks(arguments, "--help"@, "-h"@) {
        let i = choose|i: int|
            {
                &&& 0 <= i < arguments.len()
                &&& #[trigger] arguments[i] == "--help"@ || arguments[i] == "-h"@
                &&& forall|j: int| 0 <= j < i ==> #[trigger] arguments[j] != "--"@
            };
        assert(i < front) by {
            if i >= front {
                assert(arguments[front] == "--"@);
            }
        }
        assert(list[i] == arguments[i]);
    }
    if list.contains("--help"@) {
        let i = choose|i: int| 0 <= i < list.len() && list[i] == "--help"@;
        assert(arguments[i] == "--help"@);
    }
    if list.contains("-h"@) {
        let i = choose|i: int| 0 <= i < list.len() && list[i] == "-h"@;
        assert(arguments[i] == "-h"@);
    }
}

/// The version is asked for by either word wherever it is read as an argument.
pub proof fn law_version_is_asked_for_by_word(arguments: Seq<Seq<char>>, i: int)
    requires
        0 <= i < arguments.len(),
        is_read(arguments, i),
        arguments[i] == "--version"@ || arguments[i] == "-V"@,
    ensures
        reads_word(arguments, "--version"@, "-V"@),
{
}

/// A build that was read is accepted exactly if it has no Android option or an
/// Android target, and no Windows runtime or a Windows GNU target. Nothing of it
/// changes on the way.
pub proof fn law_options_are_for_their_targets(arguments: Seq<Seq<char>>)
    ensures
        parse(arguments) is Err ==> accepted_build(arguments) == parse(arguments),
        parse(arguments) matches Ok(build) ==> {
            let android = build.android;
            let has_android_options = android.ndk_path is Some || android.ndk_version is Some
                || android.ndk_index is Some || android.api_level is Some || android.abi is Some
                || android.stl is Some || android.cflags.len() > 0 || android.link_args.len() > 0
                || android.ndk_fallback;
            &&& has_android_options && !is_android(build.cargo_target) ==> accepted_build(arguments)
                == Err::<BuildSettings, Seq<char>>(
                "Android-only options require an Android -target"@,
            )
            &&& (!has_android_options || is_android(build.cargo_target))
                && build.windows_runtime is Some && !is_windows_gnu(build.cargo_target)
                ==> accepted_build(arguments) == Err::<BuildSettings, Seq<char>>(
                "--windows-runtime is only valid for a Windows GNU -target"@,
            )
            &&& (!has_android_options || is_android(build.cargo_target)) && (
            build.windows_runtime is None || is_windows_gnu(build.cargo_target))
                ==> accepted_build(arguments) == Ok::<BuildSettings, Seq<char>>(build)
        },
{
    if let Ok(build) = parse(arguments) {
        let android = build.android;
        if android.cflags.len() == 0 && android.link_args.len() == 0 {
            assert(android.cflags =~= Seq::<Seq<char>>::empty());
            assert(android.link_args =~= Seq::<Seq<char>>::empty());
        }
    }
}

// ---------------------------------------------------------------------------
// Cargo's arguments

/// Whether an argument gives a target.
pub open spec fn is_target(argument: Seq<char>) -> bool {
    argument == "--target"@ || exists|value: Seq<char>| argument == #[trigger] ("--target="@
        + value)
}

proof fn lemma_is_target(argument: Seq<char>)
    ensures
        is_target(argument) <==> argument == "--target"@ || "--target="@.is_prefix_of(argument),
{
    if "--target="@.is_prefix_of(argument) {
        assert(argument =~= "--target="@ + argument.skip("--target="@.len() as int));
    }
    if exists|value: Seq<char>| argument == #[trigger] ("--target="@ + value) {
        let value = choose|value: Seq<char>| argument == #[trigger] ("--target="@ + value);
        assert(argument.take("--target="@.len() as int) =~= "--target="@);
    }
}

/// Every command but `asm` is given the target behind it.
pub proof fn law_cargo_is_given_the_target(build: BuildSettings)
    requires
        build.cargo_command != "asm"@,
    ensures
        cargo_leading(build) == seq![build.cargo_command, "--target"@, build.cargo_target],
{
}

/// `asm` is given the target only if none of its own arguments in front of `--`
/// gives one.
pub proof fn law_asm_keeps_its_own_target(build: BuildSettings, front: int)
    requires
        build.cargo_command == "asm"@,
        0 <= front <= build.cargo_args.len(),
        forall|j: int| 0 <= j < front ==> #[trigger] build.cargo_args[j] != "--"@,
        front < build.cargo_args.len() ==> build.cargo_args[front] == "--"@,
    ensures
        cargo_leading(build) == if exists|i: int|
            0 <= i < front && is_target(#[trigger] build.cargo_args[i]) {
            seq!["asm"@]
        } else {
            seq!["asm"@, "--target"@, build.cargo_target]
        },
{
    reveal_strlit("--");
    reveal_strlit("--target");
    reveal_strlit("--target=");
    assert("--"@.len() == 2 && "--target"@.len() == 8 && "--target="@.len() == 9);
    let arguments = build.cargo_args;
    assert forall|i: int| #![trigger arguments[i]] 0 <= i < arguments.len() implies (is_target(
        arguments[i],
    ) <==> arguments[i] == "--target"@ || "--target="@.is_prefix_of(arguments[i])) by {
        lemma_is_target(arguments[i]);
    }
}

// ---------------------------------------------------------------------------
// Cargo's environment

/// What Cargo's environment sets for a build.
pub open spec fn is_set(build: BuildSettings, name: Seq<char>, value: ValueText) -> bool {
    let android = build.android;
    let triple = build.cargo_target;
    let flat = replaced(triple, '-', '_');
    ||| name == "CARGO_ZIRILD_ZIG"@ && value == ValueText::Zig && !android.ndk_fallback
    ||| name == "CARGO_ZIRILD_ZIG_TARGET"@ && value == ValueText::Text(build.zig_target)
    ||| name == "CARGO_ZIRILD_OPTIMIZE"@ && value == ValueText::Text(build.optimize)
    ||| name == "CARGO_ZIRILD_OPTIMIZE_CHOSEN"@ && value == ValueText::Text("1"@)
        && build.optimize_chosen
    ||| name == "CARGO_ZIRILD_WINDOWS_RUNTIME"@ && build.windows_runtime == Some(
        WindowsRuntime::Auto,
    ) && value == ValueText::Text("auto"@)
    ||| name == "CARGO_ZIRILD_WINDOWS_RUNTIME"@ && build.windows_runtime == Some(
        WindowsRuntime::Zig,
    ) && value == ValueText::Text("zig"@)
    ||| name == "CARGO_ZIRILD_WINDOWS_RUNTIME"@ && build.windows_runtime == Some(
        WindowsRuntime::Preserve,
    ) && value == ValueText::Text("preserve"@)
    ||| name == "CARGO_ZIRILD_TRACE"@ && value == ValueText::Text("1"@) && build.trace
    ||| is_android(triple) && is_set_for_android(android, name, value)
    ||| !is_msvc(triple) && {
        ||| name == "CARGO_TARGET_"@ + uppered(flat) + "_LINKER"@ && value
            == ValueText::WrapperLinker
        ||| name == "CARGO_TARGET_"@ + uppered(flat) + "_AR"@ && value == ValueText::WrapperAr
        ||| (name == "CC_"@ + triple || name == "CC_"@ + flat) && value == ValueText::WrapperCc
        ||| (name == "CXX_"@ + triple || name == "CXX_"@ + flat) && value == ValueText::WrapperCxx
        ||| (name == "AR_"@ + triple || name == "AR_"@ + flat) && value == ValueText::WrapperAr
        ||| name == "PATH"@ && value == ValueText::SearchPath
    }
}

/// What Cargo's environment sets for an Android build.
pub open spec fn is_set_for_android(
    android: AndroidSettings,
    name: Seq<char>,
    value: ValueText,
) -> bool {
    ||| name == "CARGO_ZIRILD_ANDROID_SYSROOT"@ && value == ValueText::Sysroot
    ||| name == "CARGO_ZIRILD_ANDROID_CFLAGS"@ && value == ValueText::Text(
        joined(android.cflags, "\n"@),
    )
    ||| name == "CARGO_ZIRILD_ANDROID_LINK_ARGS"@ && value == ValueText::Text(
        joined(android.link_args, "\n"@),
    )
    ||| (name == "ANDROID_NDK_ROOT"@ || name == "CMAKE_ANDROID_NDK"@) && value
        == ValueText::NdkRoot
    ||| android.ndk_fallback && name == "CARGO_ZIRILD_NDK_FALLBACK"@ && value == ValueText::Text(
        "1"@,
    )
    ||| android.ndk_fallback && name == "CARGO_ZIRILD_NDK_CC"@ && value == ValueText::NdkCc
    ||| android.ndk_fallback && name == "CARGO_ZIRILD_NDK_CXX"@ && value == ValueText::NdkCxx
    ||| android.ndk_fallback && name == "CARGO_ZIRILD_NDK_AR"@ && value == ValueText::NdkAr
    ||| name == "ANDROID_ABI"@ && (android.abi matches Some(abi) && value == ValueText::Text(abi))
    ||| name == "ANDROID_PLATFORM"@ && (android.api_level matches Some(level) && value
        == ValueText::Text("android-"@ + numeral(level as nat)))
    ||| name == "ANDROID_STL"@ && (android.stl matches Some(stl) && value == ValueText::Text(stl))
}

proof fn lemma_both<T>(a: Seq<T>, b: Seq<T>, item: T)
    ensures
        (a + b).contains(item) <==> a.contains(item) || b.contains(item),
{
    if a.contains(item) {
        let k = choose|k: int| 0 <= k < a.len() && a[k] == item;
        assert((a + b)[k] == item);
    }
    if b.contains(item) {
        let k = choose|k: int| 0 <= k < b.len() && b[k] == item;
        assert((a + b)[a.len() + k] == item);
    }
    if (a + b).contains(item) {
        let k = choose|k: int| 0 <= k < (a + b).len() && (a + b)[k] == item;
        assert(k < a.len() ==> a[k] == item);
        assert(k >= a.len() ==> b[k - a.len()] == item);
    }
}

proof fn lemma_listed<T>(a: T, b: T, c: T, d: T, e: T, item: T)
    ensures
        seq![a].contains(item) <==> item == a,
        seq![a, b].contains(item) <==> item == a || item == b,
        seq![a, b, c].contains(item) <==> item == a || item == b || item == c,
        seq![a, b, c, d, e].contains(item) <==> item == a || item == b || item == c || item == d
            || item == e,
{
    assert(seq![a][0] == a);
    assert(seq![a, b][0] == a && seq![a, b][1] == b);
    assert(seq![a, b, c][0] == a && seq![a, b, c][1] == b && seq![a, b, c][2] == c);
    let all = seq![a, b, c, d, e];
    assert(all[0] == a && all[1] == b && all[2] == c && all[3] == d && all[4] == e);
}

proof fn lemma_one_if(
    condition: bool,
    name: Seq<char>,
    value: ValueText,
    item: (Seq<char>, ValueText),
)
    ensures
        variable_if(condition, name, value).contains(item) <==> condition && item == (name, value),
{
    assert(seq![(name, value)][0] == (name, value));
}

proof fn lemma_wrapper_environment(build: BuildSettings, item: (Seq<char>, ValueText))
    ensures
        wrapper_environment(build).contains(item) <==> {
            ||| !build.android.ndk_fallback && item == ("CARGO_ZIRILD_ZIG"@, ValueText::Zig)
            ||| item == ("CARGO_ZIRILD_ZIG_TARGET"@, ValueText::Text(build.zig_target))
            ||| item == ("CARGO_ZIRILD_OPTIMIZE"@, ValueText::Text(build.optimize))
            ||| build.optimize_chosen && item == (
                "CARGO_ZIRILD_OPTIMIZE_CHOSEN"@,
                ValueText::Text("1"@),
            )
            ||| build.windows_runtime is Some && item == (
                "CARGO_ZIRILD_WINDOWS_RUNTIME"@,
                ValueText::Text(runtime_name(build.windows_runtime->0)),
            )
            ||| build.trace && item == ("CARGO_ZIRILD_TRACE"@, ValueText::Text("1"@))
        },
{
    let zig = variable_if(!build.android.ndk_fallback, "CARGO_ZIRILD_ZIG"@, ValueText::Zig);
    let target = ("CARGO_ZIRILD_ZIG_TARGET"@, ValueText::Text(build.zig_target));
    let optimize = ("CARGO_ZIRILD_OPTIMIZE"@, ValueText::Text(build.optimize));
    let one = ValueText::Text("1"@);
    let chosen = variable_if(build.optimize_chosen, "CARGO_ZIRILD_OPTIMIZE_CHOSEN"@, one);
    let word = ValueText::Text(runtime_name(build.windows_runtime->0));
    let runtime = variable_if(
        build.windows_runtime is Some,
        "CARGO_ZIRILD_WINDOWS_RUNTIME"@,
        word,
    );
    let trace = variable_if(build.trace, "CARGO_ZIRILD_TRACE"@, one);
    let two = seq![target, optimize];
    lemma_one_if(!build.android.ndk_fallback, "CARGO_ZIRILD_ZIG"@, ValueText::Zig, item);
    lemma_listed(target, optimize, target, target, target, item);
    lemma_one_if(build.optimize_chosen, "CARGO_ZIRILD_OPTIMIZE_CHOSEN"@, one, item);
    lemma_one_if(build.windows_runtime is Some, "CARGO_ZIRILD_WINDOWS_RUNTIME"@, word, item);
    lemma_one_if(build.trace, "CARGO_ZIRILD_TRACE"@, one, item);
    lemma_both(zig, two, item);
    lemma_both(zig + two, chosen, item);
    lemma_both(zig + two + chosen, runtime, item);
    lemma_both(zig + two + chosen + runtime, trace, item);
}

proof fn lemma_android_environment(build: BuildSettings, name: Seq<char>, value: ValueText)
    ensures
        android_environment(build).contains((name, value)) <==> is_set_for_android(
            build.android,
            name,
            value,
        ),
{
    let android = build.android;
    let item = (name, value);
    let sysroot = ("CARGO_ZIRILD_ANDROID_SYSROOT"@, ValueText::Sysroot);
    let cflags = ("CARGO_ZIRILD_ANDROID_CFLAGS"@, ValueText::Text(joined(android.cflags, "\n"@)));
    let link_args = (
        "CARGO_ZIRILD_ANDROID_LINK_ARGS"@,
        ValueText::Text(joined(android.link_args, "\n"@)),
    );
    let root = ("ANDROID_NDK_ROOT"@, ValueText::NdkRoot);
    let cmake = ("CMAKE_ANDROID_NDK"@, ValueText::NdkRoot);
    let always = seq![sysroot, cflags, link_args, root, cmake];
    lemma_listed(sysroot, cflags, link_args, root, cmake, item);
    let ndk = android.ndk_fallback;
    let one = ValueText::Text("1"@);
    let fallback = variable_if(ndk, "CARGO_ZIRILD_NDK_FALLBACK"@, one);
    lemma_one_if(ndk, "CARGO_ZIRILD_NDK_FALLBACK"@, one, item);
    let cc = variable_if(ndk, "CARGO_ZIRILD_NDK_CC"@, ValueText::NdkCc);
    lemma_one_if(ndk, "CARGO_ZIRILD_NDK_CC"@, ValueText::NdkCc, item);
    let cxx = variable_if(ndk, "CARGO_ZIRILD_NDK_CXX"@, ValueText::NdkCxx);
    lemma_one_if(ndk, "CARGO_ZIRILD_NDK_CXX"@, ValueText::NdkCxx, item);
    let ar = variable_if(ndk, "CARGO_ZIRILD_NDK_AR"@, ValueText::NdkAr);
    lemma_one_if(ndk, "CARGO_ZIRILD_NDK_AR"@, ValueText::NdkAr, item);
    let abi_text = ValueText::Text(android.abi->0);
    let abi = variable_if(android.abi is Some, "ANDROID_ABI"@, abi_text);
    lemma_one_if(android.abi is Some, "ANDROID_ABI"@, abi_text, item);
    let platform_text = ValueText::Text("android-"@ + numeral(android.api_level->0 as nat));
    let platform = variable_if(android.api_level is Some, "ANDROID_PLATFORM"@, platform_text);
    lemma_one_if(android.api_level is Some, "ANDROID_PLATFORM"@, platform_text, item);
    let stl_text = ValueText::Text(android.stl->0);
    let stl = variable_if(android.stl is Some, "ANDROID_STL"@, stl_text);
    lemma_one_if(android.stl is Some, "ANDROID_STL"@, stl_text, item);
    lemma_both(always, fallback, item);
    lemma_both(always + fallback, cc, item);
    lemma_both(always + fallback + cc, cxx, item);
    lemma_both(always + fallback + cc + cxx, ar, item);
    lemma_both(always + fallback + cc + cxx + ar, abi, item);
    lemma_both(always + fallback + cc + cxx + ar + abi, platform, item);
    lemma_both(always + fallback + cc + cxx + ar + abi + platform, stl, item);
}

proof fn lemma_tool_environment(spelling: Seq<char>, item: (Seq<char>, ValueText))
    ensures
        tool_environment(spelling).contains(item) <==> {
            ||| item == ("CC_"@ + spelling, ValueText::WrapperCc)
            ||| item == ("CXX_"@ + spelling, ValueText::WrapperCxx)
            ||| item == ("AR_"@ + spelling, ValueText::WrapperAr)
        },
{
    let cc = ("CC_"@ + spelling, ValueText::WrapperCc);
    let cxx = ("CXX_"@ + spelling, ValueText::WrapperCxx);
    let ar = ("AR_"@ + spelling, ValueText::WrapperAr);
    lemma_listed(cc, cxx, ar, ar, ar, item);
}

/// Cargo's environment sets these variables to these values, and nothing else.
pub proof fn law_environment_sets_exactly_these(
    build: BuildSettings,
    name: Seq<char>,
    value: ValueText,
)
    ensures
        cargo_environment(build).contains((name, value)) <==> is_set(build, name, value),
{
    let item = (name, value);
    let triple = build.cargo_target;
    let flat = replaced(triple, '-', '_');
    let wrapper = wrapper_environment(build);
    let android = if is_android(triple) {
        android_environment(build)
    } else {
        Seq::empty()
    };
    let linking = if is_msvc(triple) {
        Seq::empty()
    } else {
        linking_environment(triple)
    };
    lemma_wrapper_environment(build, item);
    lemma_android_environment(build, name, value);
    let linker = ("CARGO_TARGET_"@ + uppered(flat) + "_LINKER"@, ValueText::WrapperLinker);
    let ar = ("CARGO_TARGET_"@ + uppered(flat) + "_AR"@, ValueText::WrapperAr);
    let path = ("PATH"@, ValueText::SearchPath);
    lemma_listed(linker, ar, linker, linker, linker, item);
    lemma_listed(path, path, path, path, path, item);
    lemma_tool_environment(triple, item);
    lemma_tool_environment(flat, item);
    let spelled = tool_environment(triple);
    let flattened = tool_environment(flat);
    lemma_both(seq![linker, ar], spelled, item);
    lemma_both(seq![linker, ar] + spelled, flattened, item);
    lemma_both(seq![linker, ar] + spelled + flattened, seq![path], item);
    lemma_both(wrapper, android, item);
    lemma_both(wrapper + android, linking, item);
}

// ---------------------------------------------------------------------------
// Steps

/// The steps of a build in which nothing fails.
pub open spec fn steps_of(build: BuildSettings) -> Seq<DriverStep> {
    let ndk = if is_android(build.cargo_target) {
        seq![DriverStep::FindNdk]
    } else {
        Seq::empty()
    };
    let zig = if build.android.ndk_fallback {
        Seq::empty()
    } else {
        seq![DriverStep::FindZig]
    };
    seq![DriverStep::Accept] + ndk + zig + seq![
        DriverStep::Warn,
        DriverStep::MakeWrappers,
        DriverStep::RunCargo,
        DriverStep::RemoveWrappers,
    ]
}

proof fn lemma_steps_of(build: BuildSettings, i: int)
    requires
        0 <= i < steps_of(build).len() - 1,
    ensures
        following(build, steps_of(build)[i], false) == Some(steps_of(build)[i + 1]),
        following(build, steps_of(build)[i], true) is Some <==> steps_of(build)[i]
            == DriverStep::RunCargo,
        steps_of(build)[i] != DriverStep::RemoveWrappers,
        steps_of(build)[i] == DriverStep::RunCargo ==> steps_of(build)[i + 1]
            == DriverStep::RemoveWrappers && following(build, steps_of(build)[i], true) == Some(
            steps_of(build)[i + 1],
        ),
        steps_of(build).last() == DriverStep::RemoveWrappers,
{
    let all = steps_of(build);
    let ndk = is_android(build.cargo_target);
    let zig = !build.android.ndk_fallback;
    let k: int = 1 + (if ndk {
        1int
    } else {
        0
    }) + (if zig {
        1int
    } else {
        0
    });
    assert(all[0] == DriverStep::Accept);
    assert(ndk ==> all[1] == DriverStep::FindNdk);
    assert(zig ==> all[k - 1] == DriverStep::FindZig);
    assert(all[k] == DriverStep::Warn && all[k + 1] == DriverStep::MakeWrappers);
    assert(all[k + 2] == DriverStep::RunCargo && all[k + 3] == DriverStep::RemoveWrappers);
    assert(all.len() == k + 4);
}

/// Every run goes through the same steps in the same order, up to where it ends:
/// at the step that failed, or at the last one, which is also gone through if
/// Cargo failed.
pub proof fn law_runs_go_through_the_same_steps(
    build: BuildSettings,
    run: Seq<(DriverStep, bool)>,
    i: int,
)
    requires
        is_run(build, run),
        0 <= i < run.len(),
    ensures
        i < steps_of(build).len(),
        run[i].0 == steps_of(build)[i],
        is_over(build, run) <==> run.len() == steps_of(build).len() || run.last().1
            && run.last().0 != DriverStep::RunCargo,
    decreases run.len(),
{
    lemma_same_steps(build, run, i);
    let last = run.len() - 1;
    lemma_same_steps(build, run, last);
    if last < steps_of(build).len() - 1 {
        lemma_steps_of(build, last);
    } else {
        lemma_steps_of(build, 0);
        assert(run.last().0 == DriverStep::RemoveWrappers);
    }
}

proof fn lemma_same_steps(build: BuildSettings, run: Seq<(DriverStep, bool)>, i: int)
    requires
        is_run(build, run),
        0 <= i < run.len(),
    ensures
        i < steps_of(build).len(),
        run[i].0 == steps_of(build)[i],
    decreases i,
{
    if i > 0 {
        lemma_same_steps(build, run, i - 1);
        assert(following(build, run[i - 1].0, run[i - 1].1) == Some(run[i].0));
        if i - 1 < steps_of(build).len() - 1 {
            lemma_steps_of(build, i - 1);
        } else {
            lemma_steps_of(build, 0);
            assert(run[i - 1].0 == DriverStep::RemoveWrappers);
        }
    }
}

// ---------------------------------------------------------------------------
// Where tools are found

/// Of several names the first that is present is taken.
pub proof fn law_first_name_that_is_present(
    names: Seq<Seq<char>>,
    present: Seq<Seq<char>>,
    i: int,
)
    requires
        0 <= i <= names.len(),
        forall|j: int| 0 <= j < i ==> !present.contains(#[trigger] names[j]),
        i < names.len() ==> present.contains(names[i]),
    ensures
        first_present(names, present) == if i < names.len() {
            Some(names[i])
        } else {
            None
        },
    decreases names.len(),
{
    if names.len() > 0 && i > 0 {
        let rest = names.drop_first();
        assert forall|j: int| 0 <= j < i - 1 implies !present.contains(#[trigger] rest[j]) by {
            assert(rest[j] == names[j + 1]);
        }
        assert(i < names.len() ==> rest[i - 1] == names[i]);
        assert(!present.contains(names[0]));
        law_first_name_that_is_present(rest, present, i - 1);
    }
}

/// Zig is looked for by these variables, and in a directory by these names.
pub proof fn law_zig_is_looked_for_in_order(set: Seq<Seq<char>>)
    ensures
        first_present(zig_homes(), set) == if set.contains("Zig_home"@) {
            Some("Zig_home"@)
        } else if set.contains("ZIG_HOME"@) {
            Some("ZIG_HOME"@)
        } else {
            None
        },
        first_present(zig_names(true), set) == if set.contains("zig.exe"@) {
            Some("zig.exe"@)
        } else if set.contains("zig"@) {
            Some("zig"@)
        } else {
            None
        },
        first_present(zig_names(false), set) == if set.contains("zig"@) {
            Some("zig"@)
        } else {
            None
        },
{
    reveal_with_fuel(first_present, 3);
    assert(zig_homes().drop_first() =~= seq!["ZIG_HOME"@]);
    assert(zig_names(true).drop_first() =~= seq!["zig"@]);
    assert(seq!["ZIG_HOME"@].drop_first() =~= Seq::<Seq<char>>::empty());
    assert(seq!["zig"@].drop_first() =~= Seq::<Seq<char>>::empty());
}

/// NDKs are looked for by these variables.
pub proof fn law_ndks_are_looked_for_in_order(set: Seq<Seq<char>>)
    ensures
        first_present(ndk_homes(), set) == if set.contains("Ndk_home"@) {
            Some("Ndk_home"@)
        } else if set.contains("ANDROID_NDK_HOME"@) {
            Some("ANDROID_NDK_HOME"@)
        } else if set.contains("ANDROID_NDK_ROOT"@) {
            Some("ANDROID_NDK_ROOT"@)
        } else {
            None
        },
{
    reveal_with_fuel(first_present, 4);
    let two = seq!["ANDROID_NDK_HOME"@, "ANDROID_NDK_ROOT"@];
    assert(ndk_homes().drop_first() =~= two);
    assert(two.drop_first() =~= seq!["ANDROID_NDK_ROOT"@]);
    assert(seq!["ANDROID_NDK_ROOT"@].drop_first() =~= Seq::<Seq<char>>::empty());
}

// ---------------------------------------------------------------------------
// Rules

/// A value asks for an API level exactly if it is a positive number, with
/// `android-` in front or without, and the one asked for before if there was one.
pub proof fn law_api_levels_are_positive_numbers(
    previous: Option<u32>,
    text: Seq<char>,
    level: u32,
)
    requires
        !"android-"@.is_prefix_of(text),
    ensures
        requested_api_level(previous, text) == Ok::<u32, Seq<char>>(level) <==> parsed(
            text,
            0xffff_ffff,
        ) == Some(level as nat) && level > 0 && (previous is None || previous == Some(level)),
        requested_api_level(previous, "android-"@ + text) == Ok::<u32, Seq<char>>(level)
            <==> parsed(text, 0xffff_ffff) == Some(level as nat) && level > 0 && (previous is None
            || previous == Some(level)),
{
    let spelled = "android-"@ + text;
    assert(spelled.take("android-"@.len() as int) =~= "android-"@);
    assert(spelled.skip("android-"@.len() as int) =~= text);
    assert("android-"@.is_prefix_of(spelled));
}

/// Android options are refused exactly if they select an NDK by version and by
/// index, or name an ABI that is not the target's.
pub proof fn law_android_options_agree(settings: AndroidSettings, triple: Seq<char>)
    ensures
        android_refusal(settings, triple) is None <==> {
            &&& settings.ndk_version is None || settings.ndk_index is None
            &&& settings.abi is Some && triple == "aarch64-linux-android"@ ==> settings.abi->0
                == "arm64-v8a"@
            &&& settings.abi is Some && triple == "armv7-linux-androideabi"@ ==> settings.abi->0
                == "armeabi-v7a"@
            &&& settings.abi is Some && triple == "i686-linux-android"@ ==> settings.abi->0
                == "x86"@
            &&& settings.abi is Some && triple == "x86_64-linux-android"@ ==> settings.abi->0
                == "x86_64"@
        },
{
    law_android_has_four_triples(triple);
    reveal_strlit("aarch64-linux-android");
    reveal_strlit("armv7-linux-androideabi");
    reveal_strlit("i686-linux-android");
    reveal_strlit("x86_64-linux-android");
    assert("aarch64-linux-android"@[1] == 'a' && "armv7-linux-androideabi"@[1] == 'r');
    assert("i686-linux-android"@[1] == '6' && "x86_64-linux-android"@[1] == '8');
}

/// The response files of a link through Zig are rewritten by what is linked for;
/// those of other tools and of the NDK's links for other systems stay.
pub proof fn law_responses_are_rewritten_by_the_target(
    mode: WrapperMode,
    variables: WrapperVariables,
)
    ensures
        setup(mode, variables) matches Ok(start) ==> {
            let target = variables.zig_target->0;
            let windows = exists|front: Seq<char>, rest: Seq<char>|
                lowered(target) == #[trigger] (front + "-windows-"@ + rest);
            let musl = exists|front: Seq<char>, rest: Seq<char>|
                target == #[trigger] (front + "-musl"@ + rest);
            rewrite_for(start.rules) == if mode != WrapperMode::Linker {
                ResponseRewrite::Nothing
            } else if windows {
                ResponseRewrite::Windows
            } else if variables.ndk_fallback {
                ResponseRewrite::Nothing
            } else if musl {
                ResponseRewrite::Musl
            } else {
                ResponseRewrite::Plain
            }
        },
{
    law_rules_follow_the_environment(mode, variables);
}

// ---------------------------------------------------------------------------
// Messages

/// A program that succeeded is not complained of, and of every other it is said
/// whether it started, with the reason or the status at the end.
pub proof fn law_only_failures_are_reported(exit: Exit, start: Seq<char>, failure: Seq<char>)
    ensures
        exit is Succeeded <==> exit_message(exit, start, failure) is None,
        exit matches Exit::NotStarted(reason) ==> exit_message(exit, start, failure) == Some(
            start + reason@,
        ),
        exit matches Exit::Failed(status) ==> exit_message(exit, start, failure) == Some(
            failure + status@,
        ),
{
}

/// A Zig that answers is taken, wherever it was found. One that was looked for
/// on the search path and did not start was not configured.
pub proof fn law_zig_has_to_answer(executable: Seq<char>, source: ZigSource, exit: Exit)
    ensures
        exit is Succeeded <==> zig_refusal(executable, source, exit) is None,
        exit is NotStarted && source is SearchPath ==> zig_refusal(executable, source, exit)
            == Some("Zig_home is not set; set Zig_home or pass -zigpatch=<zig path>"@),
        exit matches Exit::NotStarted(reason) ==> !(source is SearchPath) ==> zig_refusal(
            executable,
            source,
            exit,
        ) == Some(
            zig_source_name(source) + " does not point to an executable Zig: "@ + reason@,
        ),
        exit matches Exit::Failed(status) ==> zig_refusal(executable, source, exit) == Some(
            zig_source_name(source) + " points to '"@ + executable
                + "', but Zig version validation failed with "@ + status@,
        ),
{
}

/// Messages call tools and sources by these names.
pub proof fn law_messages_call_tools_by_name(name: String)
    ensures
        tool_family(true) == "NDK LLVM"@,
        tool_family(false) == "Zig"@,
        mode_name(WrapperMode::Cc) == "Cc"@,
        mode_name(WrapperMode::Cxx) == "Cxx"@,
        mode_name(WrapperMode::Linker) == "Linker"@,
        mode_name(WrapperMode::Ar) == "Ar"@,
        mode_name(WrapperMode::Dlltool) == "Dlltool"@,
        zig_source_name(ZigSource::Option) == "-zigpatch"@,
        zig_source_name(ZigSource::Variable(name)) == name@,
        zig_source_name(ZigSource::SearchPath) == "PATH"@,
        ndk_source_name(NdkSource::Option) == "--ndk-path"@,
        ndk_source_name(NdkSource::Variable(name)) == name@,
{
}

/// The start of Cargo is announced by its command and the tools that it runs
/// with. Only an NDK in Zig's place is warned of before.
pub proof fn law_start_is_announced_with_its_tools(
    build: BuildSettings,
    ndk: Option<NdkIdentity>,
)
    requires
        build.android.ndk_fallback && !is_msvc(build.cargo_target) ==> ndk is Some,
    ensures
        ({
            let lines = announcement(build, ndk);
            let start = "+ cargo "@ + joined(cargo_leading(build), " "@);
            let end = " / "@ + build.optimize + ")"@;
            let warned = build.android.ndk_fallback && !is_msvc(build.cargo_target);
            &&& lines.len() == if warned {
                2int
            } else {
                1
            }
            &&& warned ==> lines[0]
                == "cargo-zirild: WARNING: -ndkfallback enabled. This build uses Android NDK Clang/LLD directly; the final output is not linked by Zig."@
            &&& lines.last() == if is_msvc(build.cargo_target) {
                start + " (MSVC toolchain"@ + end
            } else if warned {
                start + " (Android NDK Clang/LLD fallback "@ + ndk->0.version@ + " at "@
                    + ndk->0.root@ + end
            } else if ndk is Some {
                start + " (Zig "@ + build.zig_target + " / Android NDK "@ + ndk->0.version@
                    + " at "@ + ndk->0.root@ + end
            } else {
                start + " (Zig "@ + build.zig_target + end
            }
        }),
{
    reveal_strlit(" (MSVC toolchain");
    reveal_strlit(" (MSVC toolchain / ");
    reveal_strlit(" / ");
    assert(" (MSVC toolchain / "@ =~= " (MSVC toolchain"@ + " / "@);
    let lines = announcement(build, ndk);
    let start = "+ cargo "@ + joined(cargo_leading(build), " "@);
    let end = " / "@ + build.optimize + ")"@;
    if is_msvc(build.cargo_target) {
        assert(lines.last() =~= start + " (MSVC toolchain"@ + end);
    } else if build.android.ndk_fallback {
        assert(lines.last() =~= start + " (Android NDK Clang/LLD fallback "@ + ndk->0.version@
            + " at "@ + ndk->0.root@ + end);
    } else if ndk is Some {
        assert(lines.last() =~= start + " (Zig "@ + build.zig_target + " / Android NDK "@
            + ndk->0.version@ + " at "@ + ndk->0.root@ + end);
    } else {
        assert(lines.last() =~= start + " (Zig "@ + build.zig_target + end);
    }
}

/// The NDK is named in the first line if there is one. Android spellings get a
/// second, which names the musl target, unless the NDK takes Zig's place.
pub proof fn law_android_builds_are_warned(
    spelling: Seq<char>,
    ndk: Option<NdkIdentity>,
    ndk_fallback: bool,
)
    ensures
        ({
            let lines = android_warnings(spelling, ndk, ndk_fallback);
            let android = exists|front: Seq<char>, rest: Seq<char>|
                spelling == #[trigger] (front + "-android"@ + rest);
            &&& lines.len() == (if ndk is Some {
                1int
            } else {
                0
            }) + (if android && !ndk_fallback {
                1int
            } else {
                0
            })
            &&& ndk is Some ==> lines[0] == "cargo-zirild: Android NDK "@ + ndk->0.version@
                + " selected at '"@ + ndk->0.root@ + if ndk_fallback {
                "'; -ndkfallback will use its Clang/LLD tools directly."@
            } else {
                "'; its root and sysroot are exported to build scripts while Zig remains the compiler and final linker."@
            }
            &&& android && !ndk_fallback ==> exists|front: Seq<char>, rest: Seq<char>|
                lines.last() == #[trigger] (front + ("-target="@ + musl_target(spelling)) + rest)
        }),
{
    law_part_stands_between(spelling, "-android"@);
    let lines = android_warnings(spelling, ndk, ndk_fallback);
    if contains(spelling, "-android"@) && !ndk_fallback {
        reveal_strlit("-target=");
        reveal_strlit(
            "cargo-zirild: note: this Zig distribution cannot currently link Android libc, including an NDK sysroot. Zirild will not fall back to NDK clang because that would violate its single Zig linker contract. For a musl-based Android-compatible native build, try -target=",
        );
        let text =
            "cargo-zirild: note: this Zig distribution cannot currently link Android libc, including an NDK sysroot. Zirild will not fall back to NDK clang because that would violate its single Zig linker contract. For a musl-based Android-compatible native build, try -target="@;
        let rest =
            " instead; this is a musl Linux binary and not an Android-NDK-linked binary."@;
        let front = text.take(text.len() - 8);
        assert(text =~= front + "-target="@);
        assert(lines.last() =~= front + ("-target="@ + musl_target(spelling)) + rest);
    }
}

} // verus!
