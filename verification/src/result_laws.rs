//! What the functions that callers use return, said of their results.

use vstd::prelude::*;

use crate::arguments::{
    cargo_command_name, cargo_option_takes_value, parse, parse_args, reads_word, BuildOptions,
};
use crate::cargo::{
    android_target_warnings, android_warnings, announcement, cargo_announcement, cargo_environment,
    cargo_environment_variables, cargo_leading, cargo_leading_arguments, cargo_outcome,
    variable_texts, EnvironmentVariable, NdkIdentity,
};
use crate::command_laws::{commands, lemma_commands};
use crate::decimal::numeral;
use crate::driver::{accepted_build, asks, request_of, Request};
use crate::erratum::{is_cortex_erratum_argument, plain_link_text, rewrite_plain_response};
use crate::exit::Exit;
use crate::handoff::{found_texts, read_wrapper_environment, wrapper_variables, FoundVariable};
use crate::invocation::{
    argument_texts, command_line, response_rewrite, rewrite_for, setup, wrapper_command_line,
    wrapper_outcome, wrapper_setup, wrapper_trace, ArgumentText, ResponseRewrite, WrapperArgument,
    WrapperEnvironment, WrapperRules, WrapperSetup,
};
use crate::linking_laws::{
    holds_library, is_library_path, law_found_library_is_named_by_its_path, stays_out,
};
use crate::musl::{
    is_musl_startup_argument, is_startup_object, musl_link_text, rewrite_musl_response,
};
use crate::ndk::{
    android_tools, candidate_names, check_ndk_sysroot, check_ndk_tools, compiler_stem, host_tag,
    ndk_homes, ndk_host_tag, ndk_prebuilt_directories, ndk_source, ndk_version_name,
    select_ndk_candidate, select_ndk_root, selected, selection_refusal, AndroidTools, DirectoryName,
    Host, NameText, NdkCandidate, NdkHome, NdkRoot, NdkSource, ToolFile,
};
use crate::ndk_laws::{law_version_is_the_name_exactly, reads_as};
use crate::options::{
    android_refusal, validate_android_options, validate_optimize, windows_runtime_named,
    AndroidOptions, WindowsRuntime,
};
use crate::reading_laws::{lemma_options_with_values, options_with_values};
use crate::response::{
    copy_entries, find_windows_import_library, library_path, line_definition, line_value,
    named_response, replacement, requested_library, requested_windows_library,
    response_definition_files, response_file, response_library_directories,
    rewrite_windows_response, search_directories, search_entries, transform_windows_response_line,
    windows_line, windows_link_text, DefinitionCopy, LibraryDirectory,
};
use crate::settings_laws::{given, law_native_flags_add_up};
use crate::steps::{following, next_step, DriverStep};
use crate::target::{
    android_musl_target, cargo_target, cargo_target_for, is_android, is_android_target, is_msvc,
    is_msvc_target, is_windows_gnu, is_windows_gnu_target, musl_target, zig_target, zig_target_for,
};
use crate::target_laws::{law_android_has_four_triples, law_linux_becomes_unknown_linux};
use crate::text::{first_present, lines, text_option, texts};
use crate::tool_laws::{
    law_ndk_is_started_with_the_native_flags, law_wrappers_start_exactly_then,
    law_zig_compiles_with_the_native_flags, law_zig_links_with_the_native_flags,
};
use crate::windows::{
    definition_file, is_windows_auto_image_base_argument, is_windows_runtime_argument,
    transform_windows_linker_argument, windows_definition_file,
    windows_definition_with_fallback_export, with_fallback_export,
};
use crate::wrapper::{
    compiler_optimization_flag, decoded, encode_wrapper_arguments, law_native_flags_reach_wrappers,
    mode_of_stem, optimize_flag, stem_of_mode, wrapper_arguments, wrapper_file_name, wrapper_mode,
    WrapperMode,
};
use crate::zig::{
    validate_zig_path, verify_zig, zig_executable, zig_homes, zig_names, zig_refusal, ZigExecutable,
    ZigPath, ZigSource,
};

verus! {

// ---------------------------------------------------------------------------
// Values

/// Strings stand for their texts, one for one.
pub proof fn law_texts_are_those_of_the_strings(list: Seq<String>)
    ensures
        texts(list).len() == list.len(),
        forall|k: int| 0 <= k < list.len() ==> #[trigger] texts(list)[k] == list[k]@,
{
}

/// A build stands for what its fields hold.
pub proof fn law_build_stands_for_its_fields(options: BuildOptions)
    ensures
        ({
            let android = options.android;
            &&& options@.zig_target == options.zig_target@
            &&& options@.cargo_target == options.cargo_target@
            &&& options@.optimize == options.optimize@
            &&& options@.optimize_chosen == options.optimize_chosen
            &&& options@.windows_runtime == options.windows_runtime
            &&& options@.trace == options.trace
            &&& options@.cargo_command == options.cargo_command@
            &&& options@.cargo_args == texts(options.cargo_args@)
            &&& options@.cargo_positions.len() == options.cargo_positions@.len()
            &&& forall|k: int|
                0 <= k < options.cargo_positions@.len() ==> #[trigger] options@.cargo_positions[k]
                    == options.cargo_positions@[k]
            &&& stands_for(options.zig_patch, options@.zig_patch)
            &&& stands_for(android.ndk_path, options@.android.ndk_path)
            &&& stands_for(android.ndk_version, options@.android.ndk_version)
            &&& stands_for(android.abi, options@.android.abi)
            &&& stands_for(android.stl, options@.android.stl)
            &&& options@.android.ndk_index == android.ndk_index
            &&& options@.android.api_level == android.api_level
            &&& options@.android.cflags == texts(android.cflags@)
            &&& options@.android.link_args == texts(android.link_args@)
            &&& options@.android.ndk_fallback == android.ndk_fallback
        }),
{
}

/// Whether a string that may be there stands for a text.
pub open spec fn stands_for(string: Option<String>, text: Option<Seq<char>>) -> bool {
    &&& string is Some <==> text is Some
    &&& string is Some ==> string->0@ == text->0
}

/// The environment of a wrapper stands for what its fields hold.
pub proof fn law_wrapper_environment_stands_for_its_fields(environment: WrapperEnvironment)
    ensures
        stands_for(environment.zig_target, environment@.zig_target),
        stands_for(environment.optimize, environment@.optimize),
        stands_for(environment.cflags, environment@.cflags),
        stands_for(environment.link_args, environment@.link_args),
        stands_for(environment.windows_runtime, environment@.windows_runtime),
        environment@.optimize_chosen == environment.optimize_chosen,
        environment@.ndk_fallback == environment.ndk_fallback,
        environment@.has_zig == environment.has_zig,
        environment@.has_ndk_cc == environment.has_ndk_cc,
        environment@.has_ndk_cxx == environment.has_ndk_cxx,
        environment@.has_ndk_ar == environment.has_ndk_ar,
        environment@.trace == environment.trace,
{
}

/// Directories stand for the names and paths of their files.
pub proof fn law_directories_stand_for_their_files(
    directories: Seq<LibraryDirectory>,
    d: int,
    k: int,
)
    requires
        0 <= d < directories.len(),
        0 <= k < directories[d].files@.len(),
    ensures
        search_entries(directories).len() == directories.len(),
        search_entries(directories)[d].len() == directories[d].files@.len(),
        search_entries(directories)[d][k].0 == directories[d].files@[k].name@,
        search_entries(directories)[d][k].1 == directories[d].files@[k].path@,
{
}

// ---------------------------------------------------------------------------
// Targets

/// A Linux target of Zig's is returned with `unknown` for the vendor, whatever
/// its architecture and its ABI, but for Android's.
pub proof fn law_returned_triple_of_linux(
    target: &str,
    triple: String,
    architecture: Seq<char>,
    abi: Seq<char>,
)
    requires
        call_ensures(cargo_target_for, (target,), triple),
        target@ == architecture + "-linux-"@ + abi,
        !architecture.contains('-'),
        !abi.contains('-'),
        abi != "android"@ && abi != "androideabi"@,
    ensures
        triple@ == architecture + "-unknown-linux-"@ + abi,
{
    law_linux_becomes_unknown_linux(architecture, abi);
    reveal_strlit("linux");
    reveal_strlit("-linux-");
    reveal_strlit("unknown");
    reveal_strlit("-unknown-linux-");
    assert(architecture + "-linux-"@ + abi =~= architecture + seq!['-'] + "linux"@ + seq!['-']
        + abi);
    assert(architecture + "-unknown-linux-"@ + abi =~= architecture + seq!['-'] + "unknown"@ + seq![
        '-',
    ] + "linux"@ + seq!['-'] + abi);
}

/// Targets are converted and told apart by their texts alone.
pub proof fn law_returned_targets(
    target: &str,
    triple: String,
    spelling: String,
    musl: String,
    android: bool,
    msvc: bool,
    gnu: bool,
)
    requires
        call_ensures(cargo_target_for, (target,), triple),
        call_ensures(zig_target_for, (target,), spelling),
        call_ensures(android_musl_target, (target,), musl),
        call_ensures(is_android_target, (target,), android),
        call_ensures(is_msvc_target, (target,), msvc),
        call_ensures(is_windows_gnu_target, (target,), gnu),
    ensures
        triple@ == cargo_target(target@),
        spelling@ == zig_target(target@),
        musl@ == musl_target(target@),
        android == is_android(target@),
        msvc == is_msvc(target@),
        gnu == is_windows_gnu(target@),
{
}

// ---------------------------------------------------------------------------
// Command lines

/// The native flags of a build that is returned are all that the command line
/// gives, in their order.
pub proof fn law_returned_native_flags(
    args: Vec<String>,
    outcome: Result<BuildOptions, String>,
    k: int,
)
    requires
        call_ensures(parse_args, (args,), outcome),
    ensures
        outcome matches Ok(options) ==> {
            let arguments = texts(args@);
            let count = arguments.len();
            let cflags = given(arguments, "-android-cflag"@, "-android-cflag"@, count);
            let link_args = given(arguments, "-android-link-arg"@, "-android-link-arg"@, count);
            &&& options.android.cflags@.len() == cflags.len()
            &&& options.android.link_args@.len() == link_args.len()
            &&& 0 <= k < cflags.len() ==> options.android.cflags@[k]@ == cflags[k]
            &&& 0 <= k < link_args.len() ==> options.android.link_args@[k]@ == link_args[k]
        },
{
    law_native_flags_add_up(texts(args@));
    if let Ok(options) = outcome {
        let cflags = options.android.cflags@;
        let link_args = options.android.link_args@;
        assert(texts(cflags).len() == cflags.len() && texts(link_args).len() == link_args.len());
        assert(0 <= k < cflags.len() ==> texts(cflags)[k] == cflags[k]@);
        assert(0 <= k < link_args.len() ==> texts(link_args)[k] == link_args[k]@);
    }
}

/// Help goes before the version, and both before the build, which is returned or
/// refused as the command line says.
pub proof fn law_returned_request(args: Vec<String>, request: Result<Request, String>)
    requires
        call_ensures(request_of, (args,), request),
    ensures
        ({
            let arguments = texts(args@);
            let help = asks(arguments, "--help"@, "-h"@);
            let version = reads_word(arguments, "--version"@, "-V"@);
            &&& help <==> request is Ok && request->Ok_0 is Help
            &&& !help && version <==> request is Ok && request->Ok_0 is Version
            &&& !help && !version ==> match accepted_build(arguments) {
                Ok(build) => request matches Ok(Request::Build(options)) && options@ == build,
                Err(message) => request matches Err(text) && text@ == message,
            }
        }),
{
}

/// A command line is returned as it is read.
pub proof fn law_returned_build(args: Vec<String>, outcome: Result<BuildOptions, String>)
    requires
        call_ensures(parse_args, (args,), outcome),
    ensures
        match parse(texts(args@)) {
            Ok(build) => outcome matches Ok(options) && options@ == build,
            Err(message) => outcome matches Err(text) && text@ == message,
        },
{
}

/// What Cargo is given and what is said of it belong to the build.
pub proof fn law_returned_for_cargo(
    options: &BuildOptions,
    ndk: &Option<NdkIdentity>,
    leading: Vec<String>,
    variables: Vec<EnvironmentVariable>,
    lines: Vec<String>,
    next: Option<DriverStep>,
    done: DriverStep,
    failed: bool,
    k: int,
)
    requires
        call_ensures(cargo_leading_arguments, (options,), leading),
        call_ensures(cargo_environment_variables, (options,), variables),
        call_ensures(cargo_announcement, (options, ndk), lines),
        call_ensures(next_step, (options, done, failed), next),
    ensures
        texts(leading@) == cargo_leading(options@),
        variables@.len() == cargo_environment(options@).len(),
        0 <= k < variables@.len() ==> cargo_environment(options@)[k] == (
            variables@[k].name@,
            variables@[k].value@,
        ),
        texts(lines@) == announcement(options@, *ndk),
        next == following(options@, done, failed),
{
    let pairs = variable_texts(variables@);
    assert(pairs.len() == variables@.len());
    assert(0 <= k < variables@.len() ==> pairs[k] == (variables@[k].name@, variables@[k].value@));
}

/// A build succeeds exactly if Cargo does, and says how it ended otherwise.
pub proof fn law_returned_outcome(command: &str, exit: &Exit, outcome: Result<(), String>)
    requires
        call_ensures(cargo_outcome, (command, exit), outcome),
    ensures
        *exit is Succeeded <==> outcome is Ok,
        *exit matches Exit::NotStarted(reason) ==> outcome->Err_0@ == "failed to start cargo: "@
            + reason@,
        *exit matches Exit::Failed(status) ==> outcome->Err_0@ == "cargo "@ + command@
            + " failed with "@ + status@,
{
}

/// What is said of an Android target goes by its spelling and the NDK.
pub proof fn law_returned_warnings(
    spelling: &str,
    ndk: &Option<NdkIdentity>,
    ndk_fallback: bool,
    warnings: Vec<String>,
)
    requires
        call_ensures(android_target_warnings, (spelling, ndk, ndk_fallback), warnings),
    ensures
        texts(warnings@) == android_warnings(spelling@, *ndk, ndk_fallback),
{
}

// ---------------------------------------------------------------------------
// Wrappers

/// The start that is returned for a compiler ends with every C flag, and that
/// for a linker with every link argument, whether Zig or the NDK is the tool.
pub proof fn law_returned_start_holds_the_native_flags(
    mode: WrapperMode,
    environment: &WrapperEnvironment,
    start: Result<WrapperSetup, String>,
    k: int,
)
    requires
        call_ensures(wrapper_setup, (mode, environment), start),
        mode == WrapperMode::Cc || mode == WrapperMode::Cxx || mode == WrapperMode::Linker,
    ensures
        start matches Ok(start) ==> {
            let flags = if mode == WrapperMode::Linker {
                decoded(text_option(environment.link_args))
            } else {
                decoded(text_option(environment.cflags))
            };
            let front = start.leading@.len() - flags.len();
            &&& front >= 0
            &&& 0 <= k < flags.len() ==> start.leading@[front + k]@ == flags[k]
        },
{
    if let Ok(start) = start {
        let variables = environment@;
        if variables.ndk_fallback {
            law_ndk_is_started_with_the_native_flags(mode, variables);
        } else if mode == WrapperMode::Linker {
            law_zig_links_with_the_native_flags(variables);
        } else {
            law_zig_compiles_with_the_native_flags(mode, variables);
        }
        let flags = if mode == WrapperMode::Linker {
            decoded(variables.link_args)
        } else {
            decoded(variables.cflags)
        };
        let leading = texts(start.leading@);
        assert(leading == start@.leading);
        assert(leading.len() == start.leading@.len());
        let front = leading.len() - flags.len();
        assert(front >= 0);
        if 0 <= k < flags.len() {
            assert(leading[front + k] == flags[k]);
            assert(leading[front + k] == start.leading@[front + k]@);
        }
    }
}

/// A wrapper's start is returned as its mode and its environment say.
pub proof fn law_returned_start(
    mode: WrapperMode,
    environment: &WrapperEnvironment,
    outcome: Result<WrapperSetup, String>,
)
    requires
        call_ensures(wrapper_setup, (mode, environment), outcome),
    ensures
        match setup(mode, environment@) {
            Ok(start) => outcome matches Ok(found) && found.rules == start.rules && found.tool
                == start.tool && texts(found.leading@) == start.leading && texts(found.trailing@)
                == start.trailing,
            Err(message) => outcome matches Err(text) && text@ == message,
        },
{
}

/// What is said where a wrapper cannot start: the first thing that is missing.
pub proof fn law_missing_variables_are_named(
    mode: WrapperMode,
    environment: &WrapperEnvironment,
    outcome: Result<WrapperSetup, String>,
)
    requires
        call_ensures(wrapper_setup, (mode, environment), outcome),
    ensures
        outcome matches Err(message) ==> {
            let variables = environment@;
            let valid = variables.optimize == Some("Debug"@) || variables.optimize == Some(
                "ReleaseSafe"@,
            ) || variables.optimize == Some("ReleaseFast"@) || variables.optimize == Some(
                "ReleaseSmall"@,
            );
            message@ == if variables.zig_target is None {
                "CARGO_ZIRILD_ZIG_TARGET is missing from wrapper environment"@
            } else if variables.optimize is None {
                "CARGO_ZIRILD_OPTIMIZE is missing from wrapper environment"@
            } else if !valid {
                "invalid CARGO_ZIRILD_OPTIMIZE '"@ + variables.optimize->0 + "'"@
            } else if !variables.ndk_fallback {
                "CARGO_ZIRILD_ZIG is missing from wrapper environment"@
            } else if mode == WrapperMode::Dlltool {
                "NDK fallback does not provide dlltool; Android builds must not request it"@
            } else {
                "NDK fallback tool path is missing from wrapper environment"@
            }
        },
{
    law_wrappers_start_exactly_then(mode, environment@);
}

/// A wrapper reads its environment, writes its command, and rewrites responses
/// as the laws on them say.
pub proof fn law_returned_command(
    list: &[FoundVariable],
    environment: WrapperEnvironment,
    start: &WrapperSetup,
    arguments: &[String],
    command: Vec<WrapperArgument>,
    rules: WrapperRules,
    rewrite: ResponseRewrite,
    k: int,
)
    requires
        call_ensures(read_wrapper_environment, (list,), environment),
        call_ensures(wrapper_command_line, (start, arguments), command),
        call_ensures(response_rewrite, (rules,), rewrite),
    ensures
        environment@ == wrapper_variables(found_texts(list@)),
        0 <= k < list@.len() ==> found_texts(list@)[k].name == list@[k].name@ && found_texts(
            list@,
        )[k].value == list@[k].value@ && found_texts(list@)[k].unicode == list@[k].unicode,
        command@.len() == command_line(start@, texts(arguments@)).len(),
        0 <= k < command@.len() ==> command_line(start@, texts(arguments@))[k] == match command@[k] {
            WrapperArgument::Text(text) => ArgumentText::Text(text@),
            WrapperArgument::Original(position) => ArgumentText::Original(position as int),
        },
        rewrite == rewrite_for(rules),
{
    let all = argument_texts(command@);
    assert(all.len() == command@.len());
    assert(0 <= k < command@.len() ==> all[k] == command@[k]@);
}

/// Wrappers are named and known by their names, on Windows with the suffix of
/// programs.
pub proof fn law_returned_wrapper_names(
    mode: WrapperMode,
    windows: bool,
    name: String,
    stem: &str,
    found: Option<WrapperMode>,
)
    requires
        call_ensures(wrapper_file_name, (mode, windows), name),
        call_ensures(wrapper_mode, (stem,), found),
    ensures
        windows ==> name@ == stem_of_mode(mode) + ".exe"@,
        !windows ==> name@ == stem_of_mode(mode),
        found == mode_of_stem(stem@),
{
    reveal_strlit("");
    assert(stem_of_mode(mode) + ""@ =~= stem_of_mode(mode));
}

/// Wrappers report themselves, but for `dlltool`, with the number of arguments
/// that they were given.
pub proof fn law_returned_trace(
    mode: WrapperMode,
    ndk_fallback: bool,
    count: usize,
    line: Option<String>,
)
    requires
        call_ensures(wrapper_trace, (mode, ndk_fallback, count), line),
    ensures
        line is None <==> mode == WrapperMode::Dlltool,
        line matches Some(line) ==> line@ == "cargo-zirild trace: invoking "@ + if ndk_fallback {
            "NDK LLVM"@
        } else {
            "Zig"@
        } + " in "@ + match mode {
            WrapperMode::Cc => "Cc"@,
            WrapperMode::Cxx => "Cxx"@,
            WrapperMode::Linker => "Linker"@,
            _ => "Ar"@,
        } + " mode with "@ + numeral(count as nat) + " arguments"@,
{
}

/// A wrapper succeeds exactly if the program that it runs does, and says which
/// program failed and how otherwise.
pub proof fn law_returned_wrapper_outcome(
    mode: WrapperMode,
    ndk_fallback: bool,
    exit: &Exit,
    outcome: Result<(), String>,
)
    requires
        call_ensures(wrapper_outcome, (mode, ndk_fallback, exit), outcome),
    ensures
        ({
            let family = if ndk_fallback {
                "NDK LLVM"@
            } else {
                "Zig"@
            };
            let tool = match mode {
                WrapperMode::Cc => "Cc"@,
                WrapperMode::Cxx => "Cxx"@,
                WrapperMode::Linker => "Linker"@,
                WrapperMode::Ar => "Ar"@,
                WrapperMode::Dlltool => "Dlltool"@,
            };
            &&& *exit is Succeeded <==> outcome is Ok
            &&& *exit matches Exit::NotStarted(reason) ==> outcome->Err_0@ == "failed to start "@
                + family + ": "@ + reason@
            &&& *exit matches Exit::Failed(status) ==> outcome->Err_0@ == family + " "@ + tool
                + " failed with "@ + status@
        }),
{
}

// ---------------------------------------------------------------------------
// Response files

/// A line that asks for a library by `-l` is returned as the path of the library
/// in quotes, where one of the directories holds it, whether or not the line
/// itself stands in quotes.
pub proof fn law_returned_line_names_the_library(
    line: &str,
    directories: &[LibraryDirectory],
    changed: Option<String>,
    name: Seq<char>,
    d: int,
)
    requires
        call_ensures(transform_windows_response_line, (line, directories), changed),
        line_value(line@) == "-l"@ + name,
        !stays_out("-l"@ + name),
        0 <= d < directories@.len(),
        holds_library(search_entries(directories@)[d], name),
        forall|e: int|
            0 <= e < d ==> !holds_library(#[trigger] search_entries(directories@)[e], name),
    ensures
        exists|path: Seq<char>|
            {
                &&& is_library_path(search_entries(directories@)[d], name, path)
                &&& changed is Some
                &&& changed->0@ == #[trigger] (seq!['"'] + path + seq!['"'])
            },
{
    law_found_library_is_named_by_its_path(line@, name, search_entries(directories@), d);
}

/// Lines, response files and module-definition files are returned as they are
/// rewritten, and nothing is returned where nothing changes.
pub proof fn law_returned_responses(
    line: &str,
    directories: &[LibraryDirectory],
    changed: Option<String>,
    musl: Option<String>,
    plain: Option<String>,
    file: Option<String>,
    definition: Option<String>,
    patched: Option<String>,
)
    requires
        call_ensures(transform_windows_response_line, (line, directories), changed),
        call_ensures(rewrite_musl_response, (line,), musl),
        call_ensures(rewrite_plain_response, (line,), plain),
        call_ensures(response_file, (line,), file),
        call_ensures(windows_definition_file, (line,), definition),
        call_ensures(windows_definition_with_fallback_export, (line,), patched),
    ensures
        stands_for(changed, windows_line(line@, search_entries(directories@))),
        stands_for(musl, replacement(line@, musl_link_text(line@))),
        plain is Some <==> exists|i: int|
            0 <= i < lines(line@).len() && line_value(#[trigger] lines(line@)[i])
                == "-Wl,--fix-cortex-a53-843419"@,
        plain is Some ==> plain->0@ == plain_link_text(line@),
        stands_for(file, named_response(line@)),
        stands_for(definition, definition_file(line@)),
        stands_for(patched, with_fallback_export(line@)),
{
}

/// The response file of a Windows link is returned as its lines are rewritten.
pub proof fn law_returned_windows_response(
    original: &str,
    directories: &[LibraryDirectory],
    copies: &[DefinitionCopy],
    keep_runtime: bool,
    keep_erratum: bool,
    outcome: Option<String>,
)
    requires
        call_ensures(
            rewrite_windows_response,
            (original, directories, copies, keep_runtime, keep_erratum),
            outcome,
        ),
    ensures
        ({
            let text = windows_link_text(
                original@,
                search_entries(directories@),
                copy_entries(copies@),
                keep_runtime,
                keep_erratum,
            );
            &&& outcome is None <==> text == original@
            &&& outcome is Some ==> outcome->0@ == text + "\n"@
        }),
{
}

// ---------------------------------------------------------------------------
// NDKs

/// The NDK that a version selects is one of those found, in a directory whose
/// name is that text, and none is returned exactly if no directory has it.
pub proof fn law_returned_ndk_has_the_version<P>(
    candidates: Vec<NdkCandidate<P>>,
    options: &AndroidOptions,
    candidate: Option<NdkCandidate<P>>,
    version: Seq<char>,
)
    requires
        call_ensures(select_ndk_candidate::<P>, (candidates, options), candidate),
        options.ndk_version is Some,
        options.ndk_version->0@ == version,
    ensures
        candidate matches Some(candidate) ==> candidates@.contains(candidate) && reads_as(
            candidate.name@,
            version,
        ),
        candidate is None ==> forall|k: int|
            0 <= k < candidates@.len() ==> !reads_as((#[trigger] candidates@[k]).name@, version),
{
    let names = candidate_names(candidates@);
    law_version_is_the_name_exactly(names, options@, version);
    assert(names.len() == candidates@.len());
    assert forall|k: int| 0 <= k < candidates@.len() implies names[k] == (
    #[trigger] candidates@[k]).name@ by {}
    if candidate is None {
        assert forall|k: int| 0 <= k < candidates@.len() implies !reads_as(
            (#[trigger] candidates@[k]).name@,
            version,
        ) by {
            assert(!reads_as(names[k], version));
        }
    }
}

/// What is found where NDKs are looked for decides: an NDK is taken as it is and
/// cannot be selected from, and versions are selected from.
pub proof fn law_returned_root<P>(
    found: NdkHome<P>,
    source: &str,
    home: &str,
    options: &AndroidOptions,
    root: Result<NdkRoot<P>, String>,
)
    requires
        call_ensures(select_ndk_root::<P>, (found, source, home, options), root),
    ensures
        match found {
            NdkHome::Installation => if options.ndk_version is None && options.ndk_index is None {
                root is Ok && root->Ok_0 is Home
            } else {
                root is Err && root->Err_0@ == source@ + " '"@ + home@
                    + "' already points to one NDK installation; remove -ndkversion/-nindx"@
            },
            NdkHome::Absent => root is Err && root->Err_0@ == source@ + " path does not exist: "@
                + home@,
            NdkHome::Unreadable(reason) => root is Err && root->Err_0@ == "cannot read "@ + source@
                + " directory '"@ + home@ + "': "@ + reason@,
            NdkHome::Versions(candidates) => match selected(candidate_names(candidates@), options@) {
                Some(k) => root matches Ok(NdkRoot::Version(path)) && path == candidates@[k].path,
                None => root is Err && root->Err_0@ == selection_refusal(
                    candidate_names(candidates@),
                    options@,
                    source@,
                    home@,
                ),
            },
        },
{
}

/// An NDK is looked for by the option, else by the first variable that is set.
pub proof fn law_returned_ndk_source(
    options: &AndroidOptions,
    set: &Vec<String>,
    source: Result<NdkSource, String>,
)
    requires
        call_ensures(ndk_source, (options, set), source),
    ensures
        ({
            let variable = first_present(ndk_homes(), texts(set@));
            if options.ndk_path is Some {
                source is Ok && source->Ok_0 is Option
            } else if variable is Some {
                source matches Ok(NdkSource::Variable(name)) && name@ == variable->0
            } else {
                source is Err && source->Err_0@
                    == "Ndk_home is not set; set it to an Android NDK installation or Android SDK ndk directory"@
            }
        }),
{
}

/// The tools of an NDK are named by the target, the API level and the host, and
/// their directory by the host.
pub proof fn law_returned_tools(
    target: &str,
    level: Option<u32>,
    host: Host,
    tools: Result<AndroidTools, String>,
    tag: &str,
    directories: Vec<String>,
    name: &DirectoryName,
    version: String,
)
    requires
        call_ensures(android_tools, (target, level, host), tools),
        call_ensures(ndk_host_tag, (host,), tag),
        call_ensures(ndk_prebuilt_directories, (), directories),
        call_ensures(ndk_version_name, (name,), version),
    ensures
        is_android(target@) <==> tools is Ok,
        tools is Err ==> tools->Err_0@ == "unsupported Android Rust target: "@ + target@,
        tools matches Ok(tools) ==> {
            let stem = compiler_stem(target@, level)->0;
            &&& host.windows ==> tools.cc@ == stem + "-clang.cmd"@ && tools.cxx@ == stem
                + "-clang++.cmd"@ && tools.ar@ == "llvm-ar.exe"@
            &&& !host.windows ==> tools.cc@ == stem + "-clang"@ && tools.cxx@ == stem
                + "-clang++"@ && tools.ar@ == "llvm-ar"@
        },
        tag@ == host_tag(host),
        texts(directories@) == seq!["toolchains"@, "llvm"@, "prebuilt"@],
        name@ matches NameText::Unicode(text) ==> version@ == text,
        !(name@ is Unicode) ==> version@ == "direct"@,
{
    law_android_has_four_triples(target@);
    reveal_strlit("");
    reveal_strlit(".cmd");
    reveal_strlit("-clang");
    reveal_strlit("-clang++");
    reveal_strlit("-clang.cmd");
    reveal_strlit("-clang++.cmd");
    if let Ok(tools) = tools {
        let stem = compiler_stem(target@, level)->0;
        if host.windows {
            assert(tools.cc@ =~= stem + "-clang.cmd"@);
            assert(tools.cxx@ =~= stem + "-clang++.cmd"@);
        } else {
            assert(tools.cc@ =~= stem + "-clang"@);
            assert(tools.cxx@ =~= stem + "-clang++"@);
        }
    }
}

/// An NDK has to have a sysroot, and its tools where it takes Zig's place; the
/// first that is missing is named.
pub proof fn law_returned_checks(
    options: &AndroidOptions,
    root: &str,
    target: &str,
    sysroot: &str,
    host: Host,
    is_directory: bool,
    checked: Result<(), String>,
    cc: &ToolFile,
    cxx: &ToolFile,
    ar: &ToolFile,
    outcome: Result<(), String>,
)
    requires
        call_ensures(check_ndk_sysroot, (root, sysroot, host, is_directory), checked),
        call_ensures(check_ndk_tools, (options, root, target, cc, cxx, ar), outcome),
    ensures
        is_directory <==> checked is Ok,
        checked is Err ==> checked->Err_0@ == "Android NDK '"@ + root@
            + "' has no sysroot for host '"@ + host_tag(host) + "': "@ + sysroot@,
        outcome is Ok <==> !options.ndk_fallback || cc.is_file && cxx.is_file && ar.is_file,
        outcome is Err ==> outcome->Err_0@ == "Android NDK '"@ + root@ + "' does not provide the "@
            + if !cc.is_file {
            "C compiler"@
        } else if !cxx.is_file {
            "C++ compiler"@
        } else {
            "archiver"@
        } + " needed for "@ + target@ + ": "@ + if !cc.is_file {
            cc.path@
        } else if !cxx.is_file {
            cxx.path@
        } else {
            ar.path@
        },
{
}

/// Android options and optimisation modes are refused exactly as the laws on
/// them say.
pub proof fn law_returned_validations(
    android: &AndroidOptions,
    triple: &str,
    outcome: Result<(), String>,
    name: &str,
    value: &str,
    mode: Result<String, String>,
)
    requires
        call_ensures(validate_android_options, (android, triple), outcome),
        call_ensures(validate_optimize, (name, value), mode),
    ensures
        match android_refusal(android@, triple@) {
            Some(message) => outcome matches Err(text) && text@ == message,
            None => outcome is Ok,
        },
        mode is Ok <==> value@ == "Debug"@ || value@ == "ReleaseSafe"@ || value@ == "ReleaseFast"@
            || value@ == "ReleaseSmall"@,
        mode is Ok ==> mode->Ok_0@ == value@,
        mode is Err ==> mode->Err_0@ == "invalid "@ + name@ + " '"@ + value@
            + "'; use Debug, ReleaseSafe, ReleaseFast, or ReleaseSmall"@,
{
}

// ---------------------------------------------------------------------------
// Zig

/// Zig is looked for by the option, else by the first variable that is set, else
/// on the search path; a path that is given has to be a file, or a directory
/// that holds it; and it has to answer.
pub proof fn law_returned_zig(
    zig_patch: &Option<String>,
    set: &Vec<String>,
    source: ZigSource,
    found: &ZigPath,
    path: &str,
    origin: &str,
    windows: bool,
    executable: Result<ZigExecutable, String>,
    exit: &Exit,
    outcome: Result<(), String>,
)
    requires
        call_ensures(zig_executable, (zig_patch, set), source),
        call_ensures(validate_zig_path, (found, path, origin, windows), executable),
        call_ensures(verify_zig, (path, &source, exit), outcome),
    ensures
        ({
            let variable = first_present(zig_homes(), texts(set@));
            if *zig_patch is Some {
                source is Option
            } else if variable is Some {
                source matches ZigSource::Variable(name) && name@ == variable->0
            } else {
                source is SearchPath
            }
        }),
        match *found {
            ZigPath::File => executable is Ok && executable->Ok_0 is Path,
            ZigPath::Missing => executable is Err && executable->Err_0@ == origin@
                + " path does not exist: "@ + path@,
            ZigPath::Directory(present) => match first_present(
                zig_names(windows),
                texts(present@),
            ) {
                Some(name) => executable matches Ok(ZigExecutable::Within(file)) && file@ == name,
                None => executable is Err && executable->Err_0@ == "could not find "@ + if windows {
                    "zig.exe"@
                } else {
                    "zig"@
                } + " in "@ + origin@ + " directory '"@ + path@ + "'"@,
            },
        },
        match zig_refusal(path@, source, *exit) {
            Some(message) => outcome matches Err(text) && text@ == message,
            None => outcome is Ok,
        },
{
}

// ---------------------------------------------------------------------------
// Words

/// Cargo's commands, its options with values, runtimes and modes are known by
/// these words.
pub proof fn law_returned_words(
    word: &str,
    command: Option<&'static str>,
    takes: bool,
    runtime: Option<WindowsRuntime>,
    flag: Result<&'static str, String>,
)
    requires
        call_ensures(cargo_command_name, (word,), command),
        call_ensures(cargo_option_takes_value, (word,), takes),
        call_ensures(windows_runtime_named, (word,), runtime),
        call_ensures(compiler_optimization_flag, (word,), flag),
    ensures
        command is Some <==> commands().contains(word@),
        command is Some ==> command->0@ == word@,
        takes <==> options_with_values().contains(word@),
        runtime == Some(WindowsRuntime::Auto) <==> word@ == "auto"@,
        runtime == Some(WindowsRuntime::Zig) <==> word@ == "zig"@,
        runtime == Some(WindowsRuntime::Preserve) <==> word@ == "preserve"@,
        flag is Ok ==> optimize_flag(word@) == Some(flag->Ok_0@),
        flag is Err ==> optimize_flag(word@) is None && flag->Err_0@
            == "invalid CARGO_ZIRILD_OPTIMIZE '"@ + word@ + "'"@,
{
    lemma_commands(word@);
    lemma_options_with_values(word@);
    reveal_strlit("auto");
    reveal_strlit("zig");
    reveal_strlit("preserve");
    assert("auto"@.len() == 4 && "zig"@.len() == 3 && "preserve"@.len() == 8);
}

/// Linker arguments are told apart by these texts.
pub proof fn law_returned_linker_arguments(
    argument: &str,
    erratum: bool,
    runtime: bool,
    image_base: bool,
    startup: bool,
    changed: String,
)
    requires
        call_ensures(is_cortex_erratum_argument, (argument,), erratum),
        call_ensures(is_windows_runtime_argument, (argument,), runtime),
        call_ensures(is_windows_auto_image_base_argument, (argument,), image_base),
        call_ensures(is_musl_startup_argument, (argument,), startup),
        call_ensures(transform_windows_linker_argument, (argument,), changed),
    ensures
        erratum <==> argument@ == "-Wl,--fix-cortex-a53-843419"@,
        runtime <==> argument@ == "-nodefaultlibs"@ || argument@ == "-lgcc_eh"@ || argument@
            == "-l:libpthread.a"@ || argument@ == "-lmsvcrt"@ || argument@ == "-lmingwex"@
            || argument@ == "-lmingw32"@ || argument@ == "-lgcc"@,
        image_base <==> argument@ == "--enable-auto-image-base"@ || argument@
            == "--disable-auto-image-base"@ || argument@ == "-Wl,--enable-auto-image-base"@
            || argument@ == "-Wl,--disable-auto-image-base"@,
        startup <==> argument@ == "-nostartfiles"@ || is_startup_object(argument@),
        changed@ == match definition_file(argument@) {
            Some(file) => file,
            None => argument@,
        },
{
}

/// Libraries are asked for by lines and found in directories as the laws on them
/// say.
pub proof fn law_returned_libraries(
    line: &str,
    name: Option<String>,
    directories: &[LibraryDirectory],
    path: Option<String>,
    lines: &[String],
    searched: Vec<String>,
    files: Vec<String>,
)
    requires
        call_ensures(requested_windows_library, (line,), name),
        call_ensures(find_windows_import_library, (line, directories), path),
        call_ensures(response_library_directories, (lines,), searched),
        call_ensures(response_definition_files, (lines,), files),
    ensures
        stands_for(name, requested_library(line@)),
        stands_for(path, library_path(search_entries(directories@), line@)),
        texts(searched@) == search_directories(texts(lines@), 0),
        texts(files@) == texts(lines@).filter_map(|line: Seq<char>| line_definition(line)),
{
}

/// Native flags come back from the environment as they were put there, if none
/// is empty or holds a line feed.
pub proof fn law_returned_flags_come_back(
    list: &[String],
    encoded: String,
    back: Vec<String>,
)
    requires
        call_ensures(encode_wrapper_arguments, (list,), encoded),
        call_ensures(wrapper_arguments, (&Some(encoded),), back),
        forall|k: int|
            0 <= k < list@.len() ==> (#[trigger] list@[k])@.len() > 0 && !list@[k]@.contains('\n'),
    ensures
        texts(back@) == texts(list@),
{
    let flags = texts(list@);
    assert forall|k: int| 0 <= k < flags.len() implies (#[trigger] flags[k]).len() > 0
        && !flags[k].contains('\n') by {
        assert(flags[k] == list@[k]@);
    }
    law_native_flags_reach_wrappers(flags);
}

} // verus!
