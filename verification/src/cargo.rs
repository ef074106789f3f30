//! How Cargo is run: its arguments, its environment, and what is said about it.

use vstd::prelude::*;
use vstd::string::StringExecFns;

use crate::arguments::{BuildOptions, BuildSettings};
use crate::decimal::{numeral, write_number};
use crate::exit::{exit_message, exit_outcome, Exit};
use crate::options::runtime_name;
use crate::target::{
    android_musl_target, is_android, is_android_target, is_msvc, is_msvc_target, musl_target,
};
use crate::text::{
    contains, join, joined, position_of, refusal, replace_char, replaced, same, starts_with, texts,
    to_uppered, uppered,
};
use crate::wrapper::encode_wrapper_arguments;

verus! {

// ---------------------------------------------------------------------------
// Arguments

/// Whether arguments give a target of their own in front of `--`.
pub open spec fn gives_target(arguments: Seq<Seq<char>>) -> bool {
    exists|i: int|
        {
            &&& 0 <= i < arguments.len()
            &&& #[trigger] arguments[i] == "--target"@ || "--target="@.is_prefix_of(arguments[i])
            &&& forall|j: int| 0 <= j < i ==> #[trigger] arguments[j] != "--"@
        }
}

/// What Cargo is given in front of the arguments that are handed on to it: the
/// command and the target. `asm` may be given a target of its own instead.
pub open spec fn cargo_leading(build: BuildSettings) -> Seq<Seq<char>> {
    if build.cargo_command == "asm"@ && gives_target(build.cargo_args) {
        seq![build.cargo_command]
    } else {
        seq![build.cargo_command, "--target"@, build.cargo_target]
    }
}

/// Whether arguments give a target of their own in front of `--`.
fn has_target(arguments: &Vec<String>) -> (found: bool)
    ensures
        found == gives_target(texts(arguments@)),
{
    let ghost list = texts(arguments@);
    proof {
        reveal_strlit("--");
        reveal_strlit("--target");
        reveal_strlit("--target=");
        assert("--"@.len() == 2 && "--target"@.len() == 8 && "--target="@.len() == 9);
    }
    let mut i: usize = 0;
    while i < arguments.len()
        invariant
            i <= arguments@.len(),
            list == texts(arguments@),
            "--target"@.len() > "--"@.len(),
            "--target="@.len() > "--"@.len(),
            forall|j: int|
                0 <= j < i ==> {
                    &&& #[trigger] list[j] != "--"@
                    &&& list[j] != "--target"@
                    &&& !"--target="@.is_prefix_of(list[j])
                },
        decreases arguments@.len() - i,
    {
        assert(list[i as int] == arguments@[i as int]@);
        let argument = arguments[i].as_str();
        if same(argument, "--target") || starts_with(argument, "--target=") {
            return true;
        }
        if same(argument, "--") {
            return false;
        }
        i += 1;
    }
    false
}

/// What Cargo is given in front of the arguments that are handed on to it.
pub fn cargo_leading_arguments(options: &BuildOptions) -> (arguments: Vec<String>)
    ensures
        texts(arguments@) == cargo_leading(options@),
{
    let mut arguments = vec![options.cargo_command.clone()];
    if !(same(options.cargo_command.as_str(), "asm") && has_target(&options.cargo_args)) {
        arguments.push("--target".to_owned());
        arguments.push(options.cargo_target.clone());
    }
    assert(texts(arguments@) =~= cargo_leading(options@));
    arguments
}

// ---------------------------------------------------------------------------
// Environment

/// A value of the environment: a text, or a path that the caller holds.
#[derive(Debug)]
pub enum EnvironmentValue {
    Text(String),
    /// The Zig executable.
    Zig,
    /// The NDK's sysroot.
    Sysroot,
    /// The NDK's directory.
    NdkRoot,
    NdkCc,
    NdkCxx,
    NdkAr,
    /// The wrapper for the C compiler.
    WrapperCc,
    WrapperCxx,
    WrapperLinker,
    WrapperAr,
    /// The search path with the wrappers' directory in front.
    SearchPath,
}

/// What a value of the environment stands for.
pub enum ValueText {
    Text(Seq<char>),
    Zig,
    Sysroot,
    NdkRoot,
    NdkCc,
    NdkCxx,
    NdkAr,
    WrapperCc,
    WrapperCxx,
    WrapperLinker,
    WrapperAr,
    SearchPath,
}

impl View for EnvironmentValue {
    type V = ValueText;

    open spec fn view(&self) -> ValueText {
        match self {
            EnvironmentValue::Text(text) => ValueText::Text(text@),
            EnvironmentValue::Zig => ValueText::Zig,
            EnvironmentValue::Sysroot => ValueText::Sysroot,
            EnvironmentValue::NdkRoot => ValueText::NdkRoot,
            EnvironmentValue::NdkCc => ValueText::NdkCc,
            EnvironmentValue::NdkCxx => ValueText::NdkCxx,
            EnvironmentValue::NdkAr => ValueText::NdkAr,
            EnvironmentValue::WrapperCc => ValueText::WrapperCc,
            EnvironmentValue::WrapperCxx => ValueText::WrapperCxx,
            EnvironmentValue::WrapperLinker => ValueText::WrapperLinker,
            EnvironmentValue::WrapperAr => ValueText::WrapperAr,
            EnvironmentValue::SearchPath => ValueText::SearchPath,
        }
    }
}

/// A variable that Cargo finds in its environment.
#[derive(Debug)]
pub struct EnvironmentVariable {
    pub name: String,
    pub value: EnvironmentValue,
}

/// What variables stand for.
pub open spec fn variable_texts(list: Seq<EnvironmentVariable>) -> Seq<(Seq<char>, ValueText)> {
    list.map_values(|variable: EnvironmentVariable| (variable.name@, variable.value@))
}

/// One variable or none.
pub open spec fn variable_if(condition: bool, name: Seq<char>, value: ValueText) -> Seq<
    (Seq<char>, ValueText),
> {
    if condition {
        seq![(name, value)]
    } else {
        seq![]
    }
}

/// What the wrappers find of a build: Zig, the target, the optimisation mode,
/// and what the command line chose itself.
pub open spec fn wrapper_environment(build: BuildSettings) -> Seq<(Seq<char>, ValueText)> {
    variable_if(!build.android.ndk_fallback, "CARGO_ZIRILD_ZIG"@, ValueText::Zig) + seq![
        ("CARGO_ZIRILD_ZIG_TARGET"@, ValueText::Text(build.zig_target)),
        ("CARGO_ZIRILD_OPTIMIZE"@, ValueText::Text(build.optimize)),
    ] + variable_if(
        build.optimize_chosen,
        "CARGO_ZIRILD_OPTIMIZE_CHOSEN"@,
        ValueText::Text("1"@),
    ) + variable_if(
        build.windows_runtime is Some,
        "CARGO_ZIRILD_WINDOWS_RUNTIME"@,
        ValueText::Text(runtime_name(build.windows_runtime->0)),
    ) + variable_if(build.trace, "CARGO_ZIRILD_TRACE"@, ValueText::Text("1"@))
}

/// What the wrappers and build scripts find of an Android build.
pub open spec fn android_environment(build: BuildSettings) -> Seq<(Seq<char>, ValueText)> {
    let android = build.android;
    seq![
        ("CARGO_ZIRILD_ANDROID_SYSROOT"@, ValueText::Sysroot),
        ("CARGO_ZIRILD_ANDROID_CFLAGS"@, ValueText::Text(joined(android.cflags, "\n"@))),
        ("CARGO_ZIRILD_ANDROID_LINK_ARGS"@, ValueText::Text(joined(android.link_args, "\n"@))),
        ("ANDROID_NDK_ROOT"@, ValueText::NdkRoot),
        ("CMAKE_ANDROID_NDK"@, ValueText::NdkRoot),
    ] + variable_if(
        android.ndk_fallback,
        "CARGO_ZIRILD_NDK_FALLBACK"@,
        ValueText::Text("1"@),
    ) + variable_if(android.ndk_fallback, "CARGO_ZIRILD_NDK_CC"@, ValueText::NdkCc) + variable_if(
        android.ndk_fallback,
        "CARGO_ZIRILD_NDK_CXX"@,
        ValueText::NdkCxx,
    ) + variable_if(android.ndk_fallback, "CARGO_ZIRILD_NDK_AR"@, ValueText::NdkAr) + variable_if(
        android.abi is Some,
        "ANDROID_ABI"@,
        ValueText::Text(android.abi->0),
    ) + variable_if(
        android.api_level is Some,
        "ANDROID_PLATFORM"@,
        ValueText::Text("android-"@ + numeral(android.api_level->0 as nat)),
    ) + variable_if(android.stl is Some, "ANDROID_STL"@, ValueText::Text(android.stl->0))
}

/// A Rust triple with underscores for its hyphens.
pub open spec fn underscored(triple: Seq<char>) -> Seq<char> {
    replaced(triple, '-', '_')
}

/// The variables with which build scripts find the wrappers for a target.
pub open spec fn tool_environment(spelling: Seq<char>) -> Seq<(Seq<char>, ValueText)> {
    seq![
        ("CC_"@ + spelling, ValueText::WrapperCc),
        ("CXX_"@ + spelling, ValueText::WrapperCxx),
        ("AR_"@ + spelling, ValueText::WrapperAr),
    ]
}

/// The variables with which Cargo, build scripts and rustc find the wrappers.
pub open spec fn linking_environment(triple: Seq<char>) -> Seq<(Seq<char>, ValueText)> {
    let normalized = uppered(underscored(triple));
    seq![
        ("CARGO_TARGET_"@ + normalized + "_LINKER"@, ValueText::WrapperLinker),
        ("CARGO_TARGET_"@ + normalized + "_AR"@, ValueText::WrapperAr),
    ] + tool_environment(triple) + tool_environment(underscored(triple)) + seq![
        ("PATH"@, ValueText::SearchPath),
    ]
}

/// The variables that Cargo finds in its environment. Targets of MSVC keep the
/// system's tools.
pub open spec fn cargo_environment(build: BuildSettings) -> Seq<(Seq<char>, ValueText)> {
    let android = if is_android(build.cargo_target) {
        android_environment(build)
    } else {
        seq![]
    };
    let linking = if is_msvc(build.cargo_target) {
        seq![]
    } else {
        linking_environment(build.cargo_target)
    };
    wrapper_environment(build) + android + linking
}

/// Appends a variable.
fn put(list: &mut Vec<EnvironmentVariable>, name: &str, value: EnvironmentValue)
    ensures
        variable_texts(final(list)@) == variable_texts(old(list)@).push((name@, value@)),
{
    let ghost before = variable_texts(list@);
    let ghost text = value@;
    list.push(EnvironmentVariable { name: name.to_owned(), value });
    assert(variable_texts(list@) =~= before.push((name@, text)));
}

/// Appends a variable with a text.
fn put_text(list: &mut Vec<EnvironmentVariable>, name: &str, text: &str)
    ensures
        variable_texts(final(list)@) == variable_texts(old(list)@).push(
            (name@, ValueText::Text(text@)),
        ),
{
    put(list, name, EnvironmentValue::Text(text.to_owned()));
}

fn put_wrapper_environment(list: &mut Vec<EnvironmentVariable>, options: &BuildOptions)
    ensures
        variable_texts(final(list)@) == variable_texts(old(list)@) + wrapper_environment(options@),
{
    if !options.android.ndk_fallback {
        put(list, "CARGO_ZIRILD_ZIG", EnvironmentValue::Zig);
    }
    put_text(list, "CARGO_ZIRILD_ZIG_TARGET", options.zig_target.as_str());
    put_text(list, "CARGO_ZIRILD_OPTIMIZE", options.optimize.as_str());
    if options.optimize_chosen {
        put_text(list, "CARGO_ZIRILD_OPTIMIZE_CHOSEN", "1");
    }
    if let Some(runtime) = options.windows_runtime {
        put_text(list, "CARGO_ZIRILD_WINDOWS_RUNTIME", runtime.name());
    }
    if options.trace {
        put_text(list, "CARGO_ZIRILD_TRACE", "1");
    }
    assert(variable_texts(list@) =~= variable_texts(old(list)@) + wrapper_environment(options@));
}

fn put_android_environment(list: &mut Vec<EnvironmentVariable>, options: &BuildOptions)
    ensures
        variable_texts(final(list)@) == variable_texts(old(list)@) + android_environment(options@),
{
    let android = &options.android;
    put(list, "CARGO_ZIRILD_ANDROID_SYSROOT", EnvironmentValue::Sysroot);
    let cflags = encode_wrapper_arguments(android.cflags.as_slice());
    put_text(list, "CARGO_ZIRILD_ANDROID_CFLAGS", cflags.as_str());
    let link_args = encode_wrapper_arguments(android.link_args.as_slice());
    put_text(list, "CARGO_ZIRILD_ANDROID_LINK_ARGS", link_args.as_str());
    put(list, "ANDROID_NDK_ROOT", EnvironmentValue::NdkRoot);
    put(list, "CMAKE_ANDROID_NDK", EnvironmentValue::NdkRoot);
    if android.ndk_fallback {
        put_text(list, "CARGO_ZIRILD_NDK_FALLBACK", "1");
        put(list, "CARGO_ZIRILD_NDK_CC", EnvironmentValue::NdkCc);
        put(list, "CARGO_ZIRILD_NDK_CXX", EnvironmentValue::NdkCxx);
        put(list, "CARGO_ZIRILD_NDK_AR", EnvironmentValue::NdkAr);
    }
    if let Some(abi) = &android.abi {
        put_text(list, "ANDROID_ABI", abi.as_str());
    }
    if let Some(api_level) = android.api_level {
        let mut platform = "android-".to_owned();
        platform.append(write_number(api_level as u64).as_str());
        put_text(list, "ANDROID_PLATFORM", platform.as_str());
    }
    if let Some(stl) = &android.stl {
        put_text(list, "ANDROID_STL", stl.as_str());
    }
    assert(variable_texts(list@) =~= variable_texts(old(list)@) + android_environment(options@));
}

fn put_tool_environment(list: &mut Vec<EnvironmentVariable>, spelling: &str)
    ensures
        variable_texts(final(list)@) == variable_texts(old(list)@) + tool_environment(spelling@),
{
    let mut cc = "CC_".to_owned();
    cc.append(spelling);
    put(list, cc.as_str(), EnvironmentValue::WrapperCc);
    let mut cxx = "CXX_".to_owned();
    cxx.append(spelling);
    put(list, cxx.as_str(), EnvironmentValue::WrapperCxx);
    let mut ar = "AR_".to_owned();
    ar.append(spelling);
    put(list, ar.as_str(), EnvironmentValue::WrapperAr);
    assert(variable_texts(list@) =~= variable_texts(old(list)@) + tool_environment(spelling@));
}

fn put_linking_environment(list: &mut Vec<EnvironmentVariable>, triple: &str)
    ensures
        variable_texts(final(list)@) == variable_texts(old(list)@) + linking_environment(triple@),
{
    let flat = replace_char(triple, '-', '_');
    let normalized = to_uppered(flat.as_str());
    let mut linker = "CARGO_TARGET_".to_owned();
    linker.append(normalized.as_str());
    linker.append("_LINKER");
    put(list, linker.as_str(), EnvironmentValue::WrapperLinker);
    let mut ar = "CARGO_TARGET_".to_owned();
    ar.append(normalized.as_str());
    ar.append("_AR");
    put(list, ar.as_str(), EnvironmentValue::WrapperAr);
    put_tool_environment(list, triple);
    put_tool_environment(list, flat.as_str());
    put(list, "PATH", EnvironmentValue::SearchPath);
    assert(variable_texts(list@) =~= variable_texts(old(list)@) + linking_environment(triple@));
}

/// The variables that Cargo finds in its environment.
pub fn cargo_environment_variables(options: &BuildOptions) -> (list: Vec<EnvironmentVariable>)
    ensures
        variable_texts(list@) == cargo_environment(options@),
{
    let mut list: Vec<EnvironmentVariable> = Vec::new();
    put_wrapper_environment(&mut list, options);
    if is_android_target(options.cargo_target.as_str()) {
        put_android_environment(&mut list, options);
    }
    if !is_msvc_target(options.cargo_target.as_str()) {
        put_linking_environment(&mut list, options.cargo_target.as_str());
    }
    assert(variable_texts(list@) =~= cargo_environment(options@));
    list
}

// ---------------------------------------------------------------------------
// Messages

/// The NDK that is used: its version and its directory as they are shown.
#[derive(Debug)]
pub struct NdkIdentity {
    pub version: String,
    pub root: String,
}

/// What is said about Cargo's start: for an NDK in Zig's place a warning, then
/// the command and the tools that it is run with.
pub open spec fn announcement(build: BuildSettings, ndk: Option<NdkIdentity>) -> Seq<Seq<char>> {
    let command = "+ cargo "@ + joined(cargo_leading(build), " "@);
    if is_msvc(build.cargo_target) {
        seq![command + " (MSVC toolchain / "@ + build.optimize + ")"@]
    } else if build.android.ndk_fallback {
        seq![
            "cargo-zirild: WARNING: -ndkfallback enabled. This build uses Android NDK Clang/LLD directly; the final output is not linked by Zig."@,
            command + " (Android NDK Clang/LLD fallback "@ + ndk->0.version@ + " at "@ + ndk->0.root@
                + " / "@ + build.optimize + ")"@,
        ]
    } else if ndk is Some {
        seq![
            command + " (Zig "@ + build.zig_target + " / Android NDK "@ + ndk->0.version@ + " at "@
                + ndk->0.root@ + " / "@ + build.optimize + ")"@,
        ]
    } else {
        seq![command + " (Zig "@ + build.zig_target + " / "@ + build.optimize + ")"@]
    }
}

/// What is said about Cargo's start.
pub fn cargo_announcement(options: &BuildOptions, ndk: &Option<NdkIdentity>) -> (list: Vec<String>)
    requires
        options.android.ndk_fallback && !is_msvc(options.cargo_target@) ==> ndk is Some,
    ensures
        texts(list@) == announcement(options@, *ndk),
{
    let mut list: Vec<String> = Vec::new();
    let mut line = "+ cargo ".to_owned();
    line.append(join(&cargo_leading_arguments(options), " ").as_str());
    if is_msvc_target(options.cargo_target.as_str()) {
        line.append(" (MSVC toolchain / ");
    } else if options.android.ndk_fallback {
        list.push(
            "cargo-zirild: WARNING: -ndkfallback enabled. This build uses Android NDK Clang/LLD directly; the final output is not linked by Zig.".to_owned(),
        );
        if let Some(ndk) = ndk {
            line.append(" (Android NDK Clang/LLD fallback ");
            line.append(ndk.version.as_str());
            line.append(" at ");
            line.append(ndk.root.as_str());
            line.append(" / ");
        }
    } else {
        line.append(" (Zig ");
        line.append(options.zig_target.as_str());
        if let Some(ndk) = ndk {
            line.append(" / Android NDK ");
            line.append(ndk.version.as_str());
            line.append(" at ");
            line.append(ndk.root.as_str());
        }
        line.append(" / ");
    }
    line.append(options.optimize.as_str());
    line.append(")");
    list.push(line);
    assert(texts(list@) =~= announcement(options@, *ndk));
    list
}

/// What is said about an Android target: which NDK is used and for what, and
/// that Zig cannot link Android's libc, with the musl target to try instead.
pub open spec fn android_warnings(
    spelling: Seq<char>,
    ndk: Option<NdkIdentity>,
    ndk_fallback: bool,
) -> Seq<Seq<char>> {
    let selected = "cargo-zirild: Android NDK "@ + ndk->0.version@ + " selected at '"@
        + ndk->0.root@;
    let about_ndk = if ndk is None {
        seq![]
    } else if ndk_fallback {
        seq![selected + "'; -ndkfallback will use its Clang/LLD tools directly."@]
    } else {
        seq![
            selected
                + "'; its root and sysroot are exported to build scripts while Zig remains the compiler and final linker."@,
        ]
    };
    let about_zig = if contains(spelling, "-android"@) && !ndk_fallback {
        seq![
            "cargo-zirild: note: this Zig distribution cannot currently link Android libc, including an NDK sysroot. Zirild will not fall back to NDK clang because that would violate its single Zig linker contract. For a musl-based Android-compatible native build, try -target="@
                + musl_target(spelling)
                + " instead; this is a musl Linux binary and not an Android-NDK-linked binary."@,
        ]
    } else {
        seq![]
    };
    about_ndk + about_zig
}

/// What is said about an Android target.
pub fn android_target_warnings(
    zig_target: &str,
    ndk: &Option<NdkIdentity>,
    ndk_fallback: bool,
) -> (list: Vec<String>)
    ensures
        texts(list@) == android_warnings(zig_target@, *ndk, ndk_fallback),
{
    let mut list: Vec<String> = Vec::new();
    if let Some(ndk) = ndk {
        let mut line = "cargo-zirild: Android NDK ".to_owned();
        line.append(ndk.version.as_str());
        line.append(" selected at '");
        line.append(ndk.root.as_str());
        if ndk_fallback {
            line.append("'; -ndkfallback will use its Clang/LLD tools directly.");
        } else {
            line.append(
                "'; its root and sysroot are exported to build scripts while Zig remains the compiler and final linker.",
            );
        }
        list.push(line);
    }
    if position_of(zig_target, "-android").is_some() && !ndk_fallback {
        let mut line =
            "cargo-zirild: note: this Zig distribution cannot currently link Android libc, including an NDK sysroot. Zirild will not fall back to NDK clang because that would violate its single Zig linker contract. For a musl-based Android-compatible native build, try -target=".to_owned();
        line.append(android_musl_target(zig_target).as_str());
        line.append(
            " instead; this is a musl Linux binary and not an Android-NDK-linked binary.",
        );
        list.push(line);
    }
    assert(texts(list@) =~= android_warnings(zig_target@, *ndk, ndk_fallback));
    list
}

/// The outcome of a build, from how Cargo ended.
pub fn cargo_outcome(cargo_command: &str, exit: &Exit) -> (outcome: Result<(), String>)
    ensures
        refusal(outcome) == exit_message(
            *exit,
            "failed to start cargo: "@,
            "cargo "@ + cargo_command@ + " failed with "@,
        ),
{
    let mut failure = "cargo ".to_owned();
    failure.append(cargo_command);
    failure.append(" failed with ");
    exit_outcome(exit, "failed to start cargo: ", failure.as_str())
}

} // verus!
