//! What the wrappers find of the build that the driver was asked for.

use vstd::prelude::*;

use crate::arguments::BuildSettings;
use crate::arguments_laws::law_accepted_build_is_sound;
use crate::cargo::{
    android_environment, cargo_environment, linking_environment, wrapper_environment, ValueText,
};
use crate::driver::accepted_build;
use crate::driver_laws::law_accepted_options_fit_the_target;
use crate::invocation::{setup, WrapperEnvironment, WrapperVariables};
use crate::options::runtime_name;
use crate::target::is_android;
use crate::text::{joined, same};
use crate::wrapper::{
    decoded, law_every_mode_has_a_flag, law_native_flags_reach_wrappers, WrapperMode,
};

verus! {

// ---------------------------------------------------------------------------
// Reading the environment

/// A variable of a process's environment.
#[derive(Debug)]
pub struct FoundVariable {
    pub name: String,
    /// The value, with what is no Unicode text replaced.
    pub value: String,
    /// Nothing of the value was replaced.
    pub unicode: bool,
}

/// What a variable of a process's environment stands for.
pub struct FoundText {
    pub name: Seq<char>,
    pub value: Seq<char>,
    pub unicode: bool,
}

impl View for FoundVariable {
    type V = FoundText;

    open spec fn view(&self) -> FoundText {
        FoundText { name: self.name@, value: self.value@, unicode: self.unicode }
    }
}

/// What the variables of a process's environment stand for.
pub open spec fn found_texts(list: Seq<FoundVariable>) -> Seq<FoundText> {
    list.map_values(|variable: FoundVariable| variable@)
}

/// The variable with a name, if there is one.
pub open spec fn found(list: Seq<FoundText>, name: Seq<char>) -> Option<FoundText>
    decreases list.len(),
{
    if list.len() == 0 {
        None
    } else if list[0].name == name {
        Some(list[0])
    } else {
        found(list.drop_first(), name)
    }
}

/// The value of the variable with a name, if there is one.
pub open spec fn found_value(list: Seq<FoundText>, name: Seq<char>) -> Option<Seq<char>> {
    match found(list, name) {
        Some(variable) => Some(variable.value),
        None => None,
    }
}

/// The value of the variable with a name, if there is one and it is a Unicode
/// text.
pub open spec fn found_unicode(list: Seq<FoundText>, name: Seq<char>) -> Option<Seq<char>> {
    match found(list, name) {
        Some(variable) => if variable.unicode {
            Some(variable.value)
        } else {
            None
        },
        None => None,
    }
}

/// What a wrapper finds in a process's environment.
pub open spec fn wrapper_variables(list: Seq<FoundText>) -> WrapperVariables {
    WrapperVariables {
        zig_target: found_value(list, "CARGO_ZIRILD_ZIG_TARGET"@),
        optimize: found_value(list, "CARGO_ZIRILD_OPTIMIZE"@),
        optimize_chosen: found(list, "CARGO_ZIRILD_OPTIMIZE_CHOSEN"@) is Some,
        ndk_fallback: found(list, "CARGO_ZIRILD_NDK_FALLBACK"@) is Some,
        has_zig: found(list, "CARGO_ZIRILD_ZIG"@) is Some,
        has_ndk_cc: found(list, "CARGO_ZIRILD_NDK_CC"@) is Some,
        has_ndk_cxx: found(list, "CARGO_ZIRILD_NDK_CXX"@) is Some,
        has_ndk_ar: found(list, "CARGO_ZIRILD_NDK_AR"@) is Some,
        cflags: found_unicode(list, "CARGO_ZIRILD_ANDROID_CFLAGS"@),
        link_args: found_unicode(list, "CARGO_ZIRILD_ANDROID_LINK_ARGS"@),
        windows_runtime: found_value(list, "CARGO_ZIRILD_WINDOWS_RUNTIME"@),
        trace: found(list, "CARGO_ZIRILD_TRACE"@) is Some,
    }
}

/// The position of the variable with a name, if there is one.
fn find_variable(list: &[FoundVariable], name: &str) -> (at: Option<usize>)
    ensures
        match at {
            Some(at) => at < list@.len() && found(found_texts(list@), name@) == Some(
                list@[at as int]@,
            ),
            None => found(found_texts(list@), name@) is None,
        },
{
    let ghost all = found_texts(list@);
    let mut i: usize = 0;
    assert(all.skip(0) =~= all);
    while i < list.len()
        invariant
            i <= list@.len(),
            all == found_texts(list@),
            found(all, name@) == found(all.skip(i as int), name@),
        decreases list@.len() - i,
    {
        assert(all.skip(i as int)[0] == list@[i as int]@);
        if same(list[i].name.as_str(), name) {
            return Some(i);
        }
        assert(all.skip(i as int).drop_first() =~= all.skip(i + 1));
        i += 1;
    }
    None
}

/// The value of the variable with a name, if there is one.
fn read_value(list: &[FoundVariable], name: &str) -> (value: Option<String>)
    ensures
        match value {
            Some(value) => found_value(found_texts(list@), name@) == Some(value@),
            None => found_value(found_texts(list@), name@) is None,
        },
{
    match find_variable(list, name) {
        Some(at) => Some(list[at].value.clone()),
        None => None,
    }
}

/// The value of the variable with a name, if there is one and it is a Unicode
/// text.
fn read_unicode(list: &[FoundVariable], name: &str) -> (value: Option<String>)
    ensures
        match value {
            Some(value) => found_unicode(found_texts(list@), name@) == Some(value@),
            None => found_unicode(found_texts(list@), name@) is None,
        },
{
    match find_variable(list, name) {
        Some(at) => if list[at].unicode {
            Some(list[at].value.clone())
        } else {
            None
        },
        None => None,
    }
}

/// What a wrapper finds in a process's environment.
pub fn read_wrapper_environment(list: &[FoundVariable]) -> (environment: WrapperEnvironment)
    ensures
        environment@ == wrapper_variables(found_texts(list@)),
{
    WrapperEnvironment {
        zig_target: read_value(list, "CARGO_ZIRILD_ZIG_TARGET"),
        optimize: read_value(list, "CARGO_ZIRILD_OPTIMIZE"),
        optimize_chosen: find_variable(list, "CARGO_ZIRILD_OPTIMIZE_CHOSEN").is_some(),
        ndk_fallback: find_variable(list, "CARGO_ZIRILD_NDK_FALLBACK").is_some(),
        has_zig: find_variable(list, "CARGO_ZIRILD_ZIG").is_some(),
        has_ndk_cc: find_variable(list, "CARGO_ZIRILD_NDK_CC").is_some(),
        has_ndk_cxx: find_variable(list, "CARGO_ZIRILD_NDK_CXX").is_some(),
        has_ndk_ar: find_variable(list, "CARGO_ZIRILD_NDK_AR").is_some(),
        cflags: read_unicode(list, "CARGO_ZIRILD_ANDROID_CFLAGS"),
        link_args: read_unicode(list, "CARGO_ZIRILD_ANDROID_LINK_ARGS"),
        windows_runtime: read_value(list, "CARGO_ZIRILD_WINDOWS_RUNTIME"),
        trace: find_variable(list, "CARGO_ZIRILD_TRACE").is_some(),
    }
}

// ---------------------------------------------------------------------------
// From the driver to the wrappers

/// Whether a variable is one of those that wrappers look for.
pub open spec fn is_wrapper_variable(name: Seq<char>) -> bool {
    ||| name == "CARGO_ZIRILD_ZIG_TARGET"@
    ||| name == "CARGO_ZIRILD_OPTIMIZE"@
    ||| name == "CARGO_ZIRILD_OPTIMIZE_CHOSEN"@
    ||| name == "CARGO_ZIRILD_NDK_FALLBACK"@
    ||| name == "CARGO_ZIRILD_ZIG"@
    ||| name == "CARGO_ZIRILD_NDK_CC"@
    ||| name == "CARGO_ZIRILD_NDK_CXX"@
    ||| name == "CARGO_ZIRILD_NDK_AR"@
    ||| name == "CARGO_ZIRILD_ANDROID_CFLAGS"@
    ||| name == "CARGO_ZIRILD_ANDROID_LINK_ARGS"@
    ||| name == "CARGO_ZIRILD_WINDOWS_RUNTIME"@
    ||| name == "CARGO_ZIRILD_TRACE"@
}

/// Whether a variable with a name is among some that were set.
pub open spec fn is_set(environment: Seq<(Seq<char>, ValueText)>, name: Seq<char>) -> bool {
    exists|i: int| 0 <= i < environment.len() && (#[trigger] environment[i]).0 == name
}

/// Whether a process finds the variables that were set for it, and of those
/// that wrappers look for no others.
pub open spec fn finds(
    list: Seq<FoundText>,
    environment: Seq<(Seq<char>, ValueText)>,
) -> bool {
    &&& forall|i: int|
        0 <= i < environment.len() ==> {
            let variable = found(list, (#[trigger] environment[i]).0);
            &&& variable is Some
            &&& environment[i].1 matches ValueText::Text(text) ==> variable->0.value == text
                && variable->0.unicode
        }
    &&& forall|name: Seq<char>|
        is_wrapper_variable(name) && !is_set(environment, name) ==> #[trigger] found(
            list,
            name,
        ) is None
}

/// What the wrappers are to find of a build.
pub open spec fn variables_of(build: BuildSettings) -> WrapperVariables {
    let android = is_android(build.cargo_target);
    WrapperVariables {
        zig_target: Some(build.zig_target),
        optimize: Some(build.optimize),
        optimize_chosen: build.optimize_chosen,
        ndk_fallback: build.android.ndk_fallback,
        has_zig: !build.android.ndk_fallback,
        has_ndk_cc: build.android.ndk_fallback,
        has_ndk_cxx: build.android.ndk_fallback,
        has_ndk_ar: build.android.ndk_fallback,
        cflags: if android {
            Some(joined(build.android.cflags, "\n"@))
        } else {
            None
        },
        link_args: if android {
            Some(joined(build.android.link_args, "\n"@))
        } else {
            None
        },
        windows_runtime: match build.windows_runtime {
            Some(runtime) => Some(runtime_name(runtime)),
            None => None,
        },
        trace: build.trace,
    }
}

// ---------------------------------------------------------------------------
// The law of the handoff

/// What the names of this program's variables have in common.
spec fn is_own_name(name: Seq<char>) -> bool {
    name[0] == 'C' && name[1] == 'A' && name[6] == 'Z'
}

/// Lengths and characters by which the names of the variables differ.
proof fn lemma_names_differ()
    ensures
        "CARGO_ZIRILD_ZIG"@.len() == 16,
        "CARGO_ZIRILD_ZIG_TARGET"@.len() == 23,
        "CARGO_ZIRILD_OPTIMIZE"@.len() == 21,
        "CARGO_ZIRILD_OPTIMIZE_CHOSEN"@.len() == 28,
        "CARGO_ZIRILD_WINDOWS_RUNTIME"@.len() == 28,
        "CARGO_ZIRILD_TRACE"@.len() == 18,
        "CARGO_ZIRILD_ANDROID_SYSROOT"@.len() == 28,
        "CARGO_ZIRILD_ANDROID_CFLAGS"@.len() == 27,
        "CARGO_ZIRILD_ANDROID_LINK_ARGS"@.len() == 30,
        "CARGO_ZIRILD_NDK_FALLBACK"@.len() == 25,
        "CARGO_ZIRILD_NDK_CC"@.len() == 19,
        "CARGO_ZIRILD_NDK_CXX"@.len() == 20,
        "CARGO_ZIRILD_NDK_AR"@.len() == 19,
        is_own_name("CARGO_ZIRILD_ZIG"@),
        is_own_name("CARGO_ZIRILD_ZIG_TARGET"@),
        is_own_name("CARGO_ZIRILD_OPTIMIZE"@),
        is_own_name("CARGO_ZIRILD_OPTIMIZE_CHOSEN"@),
        is_own_name("CARGO_ZIRILD_WINDOWS_RUNTIME"@),
        is_own_name("CARGO_ZIRILD_TRACE"@),
        is_own_name("CARGO_ZIRILD_ANDROID_SYSROOT"@),
        is_own_name("CARGO_ZIRILD_ANDROID_CFLAGS"@),
        is_own_name("CARGO_ZIRILD_ANDROID_LINK_ARGS"@),
        is_own_name("CARGO_ZIRILD_NDK_FALLBACK"@),
        is_own_name("CARGO_ZIRILD_NDK_CC"@),
        is_own_name("CARGO_ZIRILD_NDK_CXX"@),
        is_own_name("CARGO_ZIRILD_NDK_AR"@),
        "CARGO_ZIRILD_OPTIMIZE_CHOSEN"@[13] == 'O',
        "CARGO_ZIRILD_WINDOWS_RUNTIME"@[13] == 'W',
        "CARGO_ZIRILD_ANDROID_SYSROOT"@[13] == 'A',
        "CARGO_ZIRILD_NDK_CC"@[17] == 'C',
        "CARGO_ZIRILD_NDK_AR"@[17] == 'A',
        "ANDROID_NDK_ROOT"@[0] == 'A',
        "ANDROID_ABI"@[0] == 'A',
        "ANDROID_PLATFORM"@[0] == 'A',
        "ANDROID_STL"@[0] == 'A',
        "CMAKE_ANDROID_NDK"@[1] == 'M',
        "PATH"@[0] == 'P',
{
    reveal_strlit("CARGO_ZIRILD_ZIG");
    reveal_strlit("CARGO_ZIRILD_ZIG_TARGET");
    reveal_strlit("CARGO_ZIRILD_OPTIMIZE");
    reveal_strlit("CARGO_ZIRILD_OPTIMIZE_CHOSEN");
    reveal_strlit("CARGO_ZIRILD_WINDOWS_RUNTIME");
    reveal_strlit("CARGO_ZIRILD_TRACE");
    reveal_strlit("CARGO_ZIRILD_ANDROID_SYSROOT");
    reveal_strlit("CARGO_ZIRILD_ANDROID_CFLAGS");
    reveal_strlit("CARGO_ZIRILD_ANDROID_LINK_ARGS");
    reveal_strlit("CARGO_ZIRILD_NDK_FALLBACK");
    reveal_strlit("CARGO_ZIRILD_NDK_CC");
    reveal_strlit("CARGO_ZIRILD_NDK_CXX");
    reveal_strlit("CARGO_ZIRILD_NDK_AR");
    reveal_strlit("ANDROID_NDK_ROOT");
    reveal_strlit("ANDROID_ABI");
    reveal_strlit("ANDROID_PLATFORM");
    reveal_strlit("ANDROID_STL");
    reveal_strlit("CMAKE_ANDROID_NDK");
    reveal_strlit("PATH");
}

/// The variables that every build sets for the wrappers.
proof fn lemma_wrapper_environment(build: BuildSettings, i: int)
    requires
        0 <= i < wrapper_environment(build).len(),
    ensures
        ({
            let name = wrapper_environment(build)[i].0;
            ||| name == "CARGO_ZIRILD_ZIG"@ && !build.android.ndk_fallback
            ||| name == "CARGO_ZIRILD_ZIG_TARGET"@
            ||| name == "CARGO_ZIRILD_OPTIMIZE"@
            ||| name == "CARGO_ZIRILD_OPTIMIZE_CHOSEN"@ && build.optimize_chosen
            ||| name == "CARGO_ZIRILD_WINDOWS_RUNTIME"@ && build.windows_runtime is Some
            ||| name == "CARGO_ZIRILD_TRACE"@ && build.trace
        }),
{
}

/// The variables that an Android build sets besides.
proof fn lemma_android_environment(build: BuildSettings, i: int)
    requires
        0 <= i < android_environment(build).len(),
    ensures
        ({
            let name = android_environment(build)[i].0;
            let fallback = build.android.ndk_fallback;
            ||| name == "CARGO_ZIRILD_ANDROID_SYSROOT"@
            ||| name == "CARGO_ZIRILD_ANDROID_CFLAGS"@
            ||| name == "CARGO_ZIRILD_ANDROID_LINK_ARGS"@
            ||| name == "ANDROID_NDK_ROOT"@
            ||| name == "CMAKE_ANDROID_NDK"@
            ||| name == "CARGO_ZIRILD_NDK_FALLBACK"@ && fallback
            ||| name == "CARGO_ZIRILD_NDK_CC"@ && fallback
            ||| name == "CARGO_ZIRILD_NDK_CXX"@ && fallback
            ||| name == "CARGO_ZIRILD_NDK_AR"@ && fallback
            ||| name == "ANDROID_ABI"@
            ||| name == "ANDROID_PLATFORM"@
            ||| name == "ANDROID_STL"@
        }),
{
}

/// The variables for Cargo's linker and for build scripts are none that
/// wrappers look for.
proof fn lemma_linking_environment(triple: Seq<char>, i: int)
    requires
        0 <= i < linking_environment(triple).len(),
    ensures
        !is_wrapper_variable(linking_environment(triple)[i].0),
{
    lemma_names_differ();
    reveal_strlit("CC_");
    reveal_strlit("CXX_");
    reveal_strlit("AR_");
    reveal_strlit("CARGO_TARGET_");
    let name = linking_environment(triple)[i].0;
    assert("CC_"@[1] == 'C' && "CXX_"@[1] == 'X' && "AR_"@[0] == 'A');
    assert("CARGO_TARGET_"@[6] == 'T');
    assert(name[0] == 'P' || name[0] == 'A' || name[1] == 'C' || name[1] == 'X' || name[6] == 'T');
}

/// What of the variables that wrappers look for a build does not set.
proof fn lemma_unset_variables(build: BuildSettings)
    requires
        build.android.ndk_fallback ==> is_android(build.cargo_target),
    ensures
        ({
            let environment = cargo_environment(build);
            let fallback = build.android.ndk_fallback;
            let android = is_android(build.cargo_target);
            &&& fallback ==> !is_set(environment, "CARGO_ZIRILD_ZIG"@)
            &&& !build.optimize_chosen ==> !is_set(environment, "CARGO_ZIRILD_OPTIMIZE_CHOSEN"@)
            &&& build.windows_runtime is None ==> !is_set(
                environment,
                "CARGO_ZIRILD_WINDOWS_RUNTIME"@,
            )
            &&& !build.trace ==> !is_set(environment, "CARGO_ZIRILD_TRACE"@)
            &&& !fallback ==> !is_set(environment, "CARGO_ZIRILD_NDK_FALLBACK"@)
            &&& !fallback ==> !is_set(environment, "CARGO_ZIRILD_NDK_CC"@)
            &&& !fallback ==> !is_set(environment, "CARGO_ZIRILD_NDK_CXX"@)
            &&& !fallback ==> !is_set(environment, "CARGO_ZIRILD_NDK_AR"@)
            &&& !android ==> !is_set(environment, "CARGO_ZIRILD_ANDROID_CFLAGS"@)
            &&& !android ==> !is_set(environment, "CARGO_ZIRILD_ANDROID_LINK_ARGS"@)
        }),
{
    lemma_names_differ();
    let environment = cargo_environment(build);
    let first = wrapper_environment(build);
    let second = if is_android(build.cargo_target) {
        android_environment(build)
    } else {
        seq![]
    };
    assert forall|i: int| 0 <= i < environment.len() implies is_expected(
        build,
        (#[trigger] environment[i]).0,
    ) by {
        if i < first.len() {
            lemma_wrapper_environment(build, i);
            assert(environment[i] == first[i]);
        } else if i < first.len() + second.len() {
            lemma_android_environment(build, i - first.len());
            assert(environment[i] == second[i - first.len()]);
        } else {
            let at = i - first.len() - second.len();
            lemma_linking_environment(build.cargo_target, at);
            assert(environment[i] == linking_environment(build.cargo_target)[at]);
        }
    }
}

/// Whether a build sets a variable, if it is one that wrappers look for.
spec fn is_expected(build: BuildSettings, name: Seq<char>) -> bool {
    let fallback = build.android.ndk_fallback;
    let android = is_android(build.cargo_target);
    &&& name == "CARGO_ZIRILD_ZIG"@ ==> !fallback
    &&& name == "CARGO_ZIRILD_OPTIMIZE_CHOSEN"@ ==> build.optimize_chosen
    &&& name == "CARGO_ZIRILD_WINDOWS_RUNTIME"@ ==> build.windows_runtime is Some
    &&& name == "CARGO_ZIRILD_TRACE"@ ==> build.trace
    &&& name == "CARGO_ZIRILD_NDK_FALLBACK"@ ==> fallback
    &&& name == "CARGO_ZIRILD_NDK_CC"@ ==> fallback
    &&& name == "CARGO_ZIRILD_NDK_CXX"@ ==> fallback
    &&& name == "CARGO_ZIRILD_NDK_AR"@ ==> fallback
    &&& name == "CARGO_ZIRILD_ANDROID_CFLAGS"@ ==> android
    &&& name == "CARGO_ZIRILD_ANDROID_LINK_ARGS"@ ==> android
}

/// A variable that was set is found with the text that it was set to.
proof fn lemma_found(
    list: Seq<FoundText>,
    environment: Seq<(Seq<char>, ValueText)>,
    part: Seq<(Seq<char>, ValueText)>,
    from: int,
    i: int,
)
    requires
        finds(list, environment),
        0 <= i < part.len(),
        0 <= from,
        from + part.len() <= environment.len(),
        forall|k: int| 0 <= k < part.len() ==> environment[from + k] == #[trigger] part[k],
    ensures
        ({
            let variable = found(list, part[i].0);
            &&& variable is Some
            &&& part[i].1 matches ValueText::Text(text) ==> variable->0.value == text
                && variable->0.unicode
        }),
{
    assert(environment[from + i] == part[i]);
}

/// The variables that every build sets for the wrappers are found by them.
proof fn lemma_wrapper_part_is_found(build: BuildSettings, list: Seq<FoundText>)
    requires
        finds(list, cargo_environment(build)),
    ensures
        found_value(list, "CARGO_ZIRILD_ZIG_TARGET"@) == Some(build.zig_target),
        found_value(list, "CARGO_ZIRILD_OPTIMIZE"@) == Some(build.optimize),
        !build.android.ndk_fallback ==> found(list, "CARGO_ZIRILD_ZIG"@) is Some,
        build.optimize_chosen ==> found(list, "CARGO_ZIRILD_OPTIMIZE_CHOSEN"@) is Some,
        build.windows_runtime is Some ==> found_value(list, "CARGO_ZIRILD_WINDOWS_RUNTIME"@)
            == Some(runtime_name(build.windows_runtime->0)),
        build.trace ==> found(list, "CARGO_ZIRILD_TRACE"@) is Some,
{
    let environment = cargo_environment(build);
    let part = wrapper_environment(build);
    assert forall|k: int| 0 <= k < part.len() implies environment[0 + k] == #[trigger] part[k] by {}
    let zig: int = if build.android.ndk_fallback {
        0
    } else {
        1
    };
    let chosen: int = if build.optimize_chosen {
        1
    } else {
        0
    };
    let runtime: int = if build.windows_runtime is Some {
        1
    } else {
        0
    };
    if !build.android.ndk_fallback {
        assert(part[0] == ("CARGO_ZIRILD_ZIG"@, ValueText::Zig));
        lemma_found(list, environment, part, 0, 0);
    }
    assert(part[zig] == ("CARGO_ZIRILD_ZIG_TARGET"@, ValueText::Text(build.zig_target)));
    lemma_found(list, environment, part, 0, zig);
    assert(part[zig + 1] == ("CARGO_ZIRILD_OPTIMIZE"@, ValueText::Text(build.optimize)));
    lemma_found(list, environment, part, 0, zig + 1);
    if build.optimize_chosen {
        assert(part[zig + 2] == ("CARGO_ZIRILD_OPTIMIZE_CHOSEN"@, ValueText::Text("1"@)));
        lemma_found(list, environment, part, 0, zig + 2);
    }
    if build.windows_runtime is Some {
        assert(part[zig + 2 + chosen] == (
            "CARGO_ZIRILD_WINDOWS_RUNTIME"@,
            ValueText::Text(runtime_name(build.windows_runtime->0)),
        ));
        lemma_found(list, environment, part, 0, zig + 2 + chosen);
    }
    if build.trace {
        assert(part[zig + 2 + chosen + runtime] == (
            "CARGO_ZIRILD_TRACE"@,
            ValueText::Text("1"@),
        ));
        lemma_found(list, environment, part, 0, zig + 2 + chosen + runtime);
    }
}

/// The variables that an Android build sets for the wrappers are found by them.
proof fn lemma_android_part_is_found(build: BuildSettings, list: Seq<FoundText>)
    requires
        finds(list, cargo_environment(build)),
        is_android(build.cargo_target),
    ensures
        found_unicode(list, "CARGO_ZIRILD_ANDROID_CFLAGS"@) == Some(
            joined(build.android.cflags, "\n"@),
        ),
        found_unicode(list, "CARGO_ZIRILD_ANDROID_LINK_ARGS"@) == Some(
            joined(build.android.link_args, "\n"@),
        ),
        build.android.ndk_fallback ==> {
            &&& found(list, "CARGO_ZIRILD_NDK_FALLBACK"@) is Some
            &&& found(list, "CARGO_ZIRILD_NDK_CC"@) is Some
            &&& found(list, "CARGO_ZIRILD_NDK_CXX"@) is Some
            &&& found(list, "CARGO_ZIRILD_NDK_AR"@) is Some
        },
{
    let environment = cargo_environment(build);
    let part = android_environment(build);
    let from = wrapper_environment(build).len() as int;
    assert forall|k: int| 0 <= k < part.len() implies environment[from + k]
        == #[trigger] part[k] by {}
    assert(part[1] == (
        "CARGO_ZIRILD_ANDROID_CFLAGS"@,
        ValueText::Text(joined(build.android.cflags, "\n"@)),
    ));
    lemma_found(list, environment, part, from, 1);
    assert(part[2] == (
        "CARGO_ZIRILD_ANDROID_LINK_ARGS"@,
        ValueText::Text(joined(build.android.link_args, "\n"@)),
    ));
    lemma_found(list, environment, part, from, 2);
    if build.android.ndk_fallback {
        assert(part[5].0 == "CARGO_ZIRILD_NDK_FALLBACK"@);
        assert(part[6].0 == "CARGO_ZIRILD_NDK_CC"@);
        assert(part[7].0 == "CARGO_ZIRILD_NDK_CXX"@);
        assert(part[8].0 == "CARGO_ZIRILD_NDK_AR"@);
        lemma_found(list, environment, part, from, 5);
        lemma_found(list, environment, part, from, 6);
        lemma_found(list, environment, part, from, 7);
        lemma_found(list, environment, part, from, 8);
    }
}

/// The wrappers find the build that the command line asked for, and can start
/// as every tool that is asked of them. Only a wrapper for `dlltool` cannot
/// where the NDK takes Zig's place, since the NDK has no such tool.
pub proof fn law_wrappers_find_the_build(
    arguments: Seq<Seq<char>>,
    list: Seq<FoundText>,
    mode: WrapperMode,
)
    requires
        accepted_build(arguments) matches Ok(build) && finds(list, cargo_environment(build)),
    ensures
        ({
            let build = accepted_build(arguments)->Ok_0;
            &&& wrapper_variables(list) == variables_of(build)
            &&& setup(mode, wrapper_variables(list)) is Ok <==> !(mode == WrapperMode::Dlltool
                && build.android.ndk_fallback)
        }),
{
    let build = accepted_build(arguments)->Ok_0;
    law_accepted_options_fit_the_target(arguments);
    law_accepted_build_is_sound(arguments);
    law_every_mode_has_a_flag(build.optimize);
    lemma_unset_variables(build);
    lemma_wrapper_part_is_found(build, list);
    if is_android(build.cargo_target) {
        lemma_android_part_is_found(build, list);
    }
    assert(wrapper_variables(list) =~= variables_of(build));
}

/// Whether no text of some holds a line feed.
pub open spec fn are_single_lines(list: Seq<Seq<char>>) -> bool {
    forall|i: int| 0 <= i < list.len() ==> !(#[trigger] list[i]).contains('\n')
}

/// The native flags of an Android build reach the wrappers as the command line
/// gave them, if none of them holds a line feed.
pub proof fn law_wrappers_find_the_native_flags(arguments: Seq<Seq<char>>)
    requires
        accepted_build(arguments) matches Ok(build) && is_android(build.cargo_target)
            && are_single_lines(build.android.cflags) && are_single_lines(build.android.link_args),
    ensures
        ({
            let build = accepted_build(arguments)->Ok_0;
            &&& decoded(variables_of(build).cflags) == build.android.cflags
            &&& decoded(variables_of(build).link_args) == build.android.link_args
        }),
{
    let build = accepted_build(arguments)->Ok_0;
    law_accepted_build_is_sound(arguments);
    law_native_flags_reach_wrappers(build.android.cflags);
    law_native_flags_reach_wrappers(build.android.link_args);
}

} // verus!
