//! The command that a tool wrapper runs in place of the tool.

use vstd::prelude::*;
use vstd::string::StringExecFns;

use crate::decimal::{numeral, write_number};
use crate::erratum::{is_cortex_erratum_argument, is_erratum_argument};
use crate::exit::{exit_message, exit_outcome, Exit};
use crate::musl::{is_musl_startup_argument, is_musl_zig_target, is_startup_argument, links_musl};
use crate::target::{is_windows_zig_target, links_windows};
use crate::text::{refusal, same, starts_with, text_option, texts};
use crate::windows::{
    definition_file, is_image_base_argument, is_runtime_argument,
    is_windows_auto_image_base_argument, is_windows_runtime_argument, windows_definition_file,
};
use crate::wrapper::{
    compiler_optimization_flag, decoded, optimize_flag, wrapper_arguments, WrapperMode,
};

verus! {

// ---------------------------------------------------------------------------
// What a wrapper finds in its environment

/// What the driver leaves in the environment of the wrappers.
#[derive(Debug)]
pub struct WrapperEnvironment {
    pub zig_target: Option<String>,
    pub optimize: Option<String>,
    /// The command line chose the optimisation mode itself.
    pub optimize_chosen: bool,
    pub ndk_fallback: bool,
    /// The environment names Zig.
    pub has_zig: bool,
    /// The environment names the NDK's C compiler.
    pub has_ndk_cc: bool,
    /// The environment names the NDK's C++ compiler.
    pub has_ndk_cxx: bool,
    /// The environment names the NDK's archiver.
    pub has_ndk_ar: bool,
    pub cflags: Option<String>,
    pub link_args: Option<String>,
    pub windows_runtime: Option<String>,
    /// The wrapper reports what it does.
    pub trace: bool,
}

/// What the environment of a wrapper stands for.
#[verifier::ext_equal]
pub struct WrapperVariables {
    pub zig_target: Option<Seq<char>>,
    pub optimize: Option<Seq<char>>,
    pub optimize_chosen: bool,
    pub ndk_fallback: bool,
    pub has_zig: bool,
    pub has_ndk_cc: bool,
    pub has_ndk_cxx: bool,
    pub has_ndk_ar: bool,
    pub cflags: Option<Seq<char>>,
    pub link_args: Option<Seq<char>>,
    pub windows_runtime: Option<Seq<char>>,
    pub trace: bool,
}

impl View for WrapperEnvironment {
    type V = WrapperVariables;

    open spec fn view(&self) -> WrapperVariables {
        WrapperVariables {
            zig_target: text_option(self.zig_target),
            optimize: text_option(self.optimize),
            optimize_chosen: self.optimize_chosen,
            ndk_fallback: self.ndk_fallback,
            has_zig: self.has_zig,
            has_ndk_cc: self.has_ndk_cc,
            has_ndk_cxx: self.has_ndk_cxx,
            has_ndk_ar: self.has_ndk_ar,
            cflags: text_option(self.cflags),
            link_args: text_option(self.link_args),
            windows_runtime: text_option(self.windows_runtime),
            trace: self.trace,
        }
    }
}

/// The program that a wrapper runs.
#[derive(Clone, Copy, Debug, PartialEq, Eq, Structural)]
pub enum Tool {
    Zig,
    NdkCc,
    NdkCxx,
    NdkAr,
}

/// What decides how a wrapper treats its arguments.
#[derive(Clone, Copy, Debug, PartialEq, Eq, Structural)]
pub struct WrapperRules {
    pub mode: WrapperMode,
    /// The NDK's tools stand in for Zig.
    pub ndk_fallback: bool,
    /// The wrapper links for Windows.
    pub windows: bool,
    /// The wrapper links for musl.
    pub musl: bool,
    /// A Windows link keeps the runtime that rustc asks for.
    pub keep_runtime: bool,
    /// The optimisation mode was chosen on the command line.
    pub optimize_chosen: bool,
}

/// How a wrapper starts: the program and the arguments before and behind those
/// that it was given.
#[derive(Debug)]
pub struct WrapperSetup {
    pub rules: WrapperRules,
    pub tool: Tool,
    pub leading: Vec<String>,
    pub trailing: Vec<String>,
}

/// What the start of a wrapper stands for.
#[verifier::ext_equal]
pub struct SetupText {
    pub rules: WrapperRules,
    pub tool: Tool,
    pub leading: Seq<Seq<char>>,
    pub trailing: Seq<Seq<char>>,
}

impl View for WrapperSetup {
    type V = SetupText;

    open spec fn view(&self) -> SetupText {
        SetupText {
            rules: self.rules,
            tool: self.tool,
            leading: texts(self.leading@),
            trailing: texts(self.trailing@),
        }
    }
}

// ---------------------------------------------------------------------------
// The start of a wrapper

/// Whether a wrapper stands in for a C or C++ compiler.
pub open spec fn compiles(mode: WrapperMode) -> bool {
    mode == WrapperMode::Cc || mode == WrapperMode::Cxx
}

/// Whether a wrapper runs a compiler driver, to compile or to link.
pub open spec fn runs_driver(mode: WrapperMode) -> bool {
    compiles(mode) || mode == WrapperMode::Linker
}

/// The program that a wrapper runs, or the message if the environment does not
/// name it.
pub open spec fn wrapper_tool(mode: WrapperMode, variables: WrapperVariables) -> Result<
    Tool,
    Seq<char>,
> {
    let missing = "NDK fallback tool path is missing from wrapper environment"@;
    if !variables.ndk_fallback {
        if variables.has_zig {
            Ok(Tool::Zig)
        } else {
            Err("CARGO_ZIRILD_ZIG is missing from wrapper environment"@)
        }
    } else if mode == WrapperMode::Dlltool {
        Err("NDK fallback does not provide dlltool; Android builds must not request it"@)
    } else if mode == WrapperMode::Cxx {
        if variables.has_ndk_cxx {
            Ok(Tool::NdkCxx)
        } else {
            Err(missing)
        }
    } else if mode == WrapperMode::Ar {
        if variables.has_ndk_ar {
            Ok(Tool::NdkAr)
        } else {
            Err(missing)
        }
    } else {
        if variables.has_ndk_cc {
            Ok(Tool::NdkCc)
        } else {
            Err(missing)
        }
    }
}

/// How a wrapper treats its arguments.
pub open spec fn wrapper_rules(
    mode: WrapperMode,
    variables: WrapperVariables,
    target: Seq<char>,
) -> WrapperRules {
    WrapperRules {
        mode,
        ndk_fallback: variables.ndk_fallback,
        windows: mode == WrapperMode::Linker && links_windows(target),
        musl: mode == WrapperMode::Linker && !variables.ndk_fallback && links_musl(target),
        keep_runtime: variables.windows_runtime == Some("preserve"@),
        optimize_chosen: variables.optimize_chosen,
    }
}

/// Whether the optimisation flag goes behind the arguments of a wrapper, in
/// place of those that they hold.
pub open spec fn overrides_optimize(rules: WrapperRules) -> bool {
    compiles(rules.mode) && rules.optimize_chosen
}

/// What selects Zig's frontend, with the target where it compiles or links.
pub open spec fn zig_frontend(mode: WrapperMode, target: Seq<char>) -> Seq<Seq<char>> {
    match mode {
        WrapperMode::Cc => seq!["cc"@, "-target"@, target],
        WrapperMode::Cxx => seq!["c++"@, "-target"@, target],
        WrapperMode::Linker => seq!["cc"@, "-target"@, target],
        WrapperMode::Ar => seq!["ar"@],
        WrapperMode::Dlltool => seq!["dlltool"@],
    }
}

/// One text or none.
pub open spec fn text_if(condition: bool, text: Seq<char>) -> Seq<Seq<char>> {
    if condition {
        seq![text]
    } else {
        seq![]
    }
}

/// The arguments in front of those that a wrapper was given: Zig's frontend,
/// the optimisation flag where later flags may change it, the switch that
/// keeps Zig from adding a sanitizer nobody asked for, and the native flags.
pub open spec fn leading_arguments(
    rules: WrapperRules,
    variables: WrapperVariables,
    target: Seq<char>,
    flag: Seq<char>,
) -> Seq<Seq<char>> {
    let frontend = if rules.ndk_fallback {
        seq![]
    } else {
        zig_frontend(rules.mode, target)
    };
    let native = if rules.mode == WrapperMode::Linker {
        decoded(variables.link_args)
    } else if compiles(rules.mode) {
        decoded(variables.cflags)
    } else {
        seq![]
    };
    frontend + text_if(runs_driver(rules.mode) && !overrides_optimize(rules), flag) + text_if(
        compiles(rules.mode) && !rules.ndk_fallback,
        "-fno-sanitize=undefined"@,
    ) + native
}

/// The arguments behind those that a wrapper was given: the unwinder that
/// Zig's Windows runtime leaves out, and an optimisation flag that overrides.
pub open spec fn trailing_arguments(rules: WrapperRules, flag: Seq<char>) -> Seq<Seq<char>> {
    text_if(rules.windows && !rules.keep_runtime, "-lunwind"@) + text_if(
        overrides_optimize(rules),
        flag,
    )
}

/// How a wrapper starts, or the message if its environment does not let it.
pub open spec fn setup(mode: WrapperMode, variables: WrapperVariables) -> Result<
    SetupText,
    Seq<char>,
> {
    if variables.zig_target is None {
        Err("CARGO_ZIRILD_ZIG_TARGET is missing from wrapper environment"@)
    } else if variables.optimize is None {
        Err("CARGO_ZIRILD_OPTIMIZE is missing from wrapper environment"@)
    } else if optimize_flag(variables.optimize->0) is None {
        Err("invalid CARGO_ZIRILD_OPTIMIZE '"@ + variables.optimize->0 + "'"@)
    } else {
        match wrapper_tool(mode, variables) {
            Ok(tool) => {
                let target = variables.zig_target->0;
                let flag = optimize_flag(variables.optimize->0)->0;
                let rules = wrapper_rules(mode, variables, target);
                Ok(
                    SetupText {
                        rules,
                        tool,
                        leading: leading_arguments(rules, variables, target, flag),
                        trailing: trailing_arguments(rules, flag),
                    },
                )
            },
            Err(message) => Err(message),
        }
    }
}

/// The program that a wrapper runs.
fn find_tool(mode: WrapperMode, environment: &WrapperEnvironment) -> (tool: Result<Tool, String>)
    ensures
        match tool {
            Ok(tool) => wrapper_tool(mode, environment@) == Ok::<Tool, Seq<char>>(tool),
            Err(message) => wrapper_tool(mode, environment@) == Err::<Tool, Seq<char>>(message@),
        },
{
    if !environment.ndk_fallback {
        return if environment.has_zig {
            Ok(Tool::Zig)
        } else {
            Err("CARGO_ZIRILD_ZIG is missing from wrapper environment".to_owned())
        };
    }
    let (tool, named) = match mode {
        WrapperMode::Cc => (Tool::NdkCc, environment.has_ndk_cc),
        WrapperMode::Linker => (Tool::NdkCc, environment.has_ndk_cc),
        WrapperMode::Cxx => (Tool::NdkCxx, environment.has_ndk_cxx),
        WrapperMode::Ar => (Tool::NdkAr, environment.has_ndk_ar),
        WrapperMode::Dlltool => {
            return Err(
                "NDK fallback does not provide dlltool; Android builds must not request it".to_owned(),
            );
        },
    };
    if named {
        Ok(tool)
    } else {
        Err("NDK fallback tool path is missing from wrapper environment".to_owned())
    }
}

/// What selects Zig's frontend, with the target where it compiles or links.
fn frontend_arguments(mode: WrapperMode, target: &str) -> (arguments: Vec<String>)
    ensures
        texts(arguments@) == zig_frontend(mode, target@),
{
    let arguments = match mode {
        WrapperMode::Cc => vec!["cc".to_owned(), "-target".to_owned(), target.to_owned()],
        WrapperMode::Cxx => vec!["c++".to_owned(), "-target".to_owned(), target.to_owned()],
        WrapperMode::Linker => vec!["cc".to_owned(), "-target".to_owned(), target.to_owned()],
        WrapperMode::Ar => vec!["ar".to_owned()],
        WrapperMode::Dlltool => vec!["dlltool".to_owned()],
    };
    assert(texts(arguments@) =~= zig_frontend(mode, target@));
    arguments
}

/// How a wrapper starts.
pub fn wrapper_setup(mode: WrapperMode, environment: &WrapperEnvironment) -> (result: Result<
    WrapperSetup,
    String,
>)
    ensures
        match result {
            Ok(result) => setup(mode, environment@) == Ok::<SetupText, Seq<char>>(result@),
            Err(message) => setup(mode, environment@) == Err::<SetupText, Seq<char>>(message@),
        },
{
    let target = match &environment.zig_target {
        Some(target) => target.as_str(),
        None => {
            return Err("CARGO_ZIRILD_ZIG_TARGET is missing from wrapper environment".to_owned());
        },
    };
    let optimize = match &environment.optimize {
        Some(optimize) => optimize.as_str(),
        None => {
            return Err("CARGO_ZIRILD_OPTIMIZE is missing from wrapper environment".to_owned());
        },
    };
    let flag = compiler_optimization_flag(optimize)?;
    let tool = find_tool(mode, environment)?;
    let links = mode == WrapperMode::Linker;
    let compiles_code = mode == WrapperMode::Cc || mode == WrapperMode::Cxx;
    let keep_runtime = match &environment.windows_runtime {
        Some(runtime) => same(runtime.as_str(), "preserve"),
        None => false,
    };
    let rules = WrapperRules {
        mode,
        ndk_fallback: environment.ndk_fallback,
        windows: links && is_windows_zig_target(target),
        musl: links && !environment.ndk_fallback && is_musl_zig_target(target),
        keep_runtime,
        optimize_chosen: environment.optimize_chosen,
    };
    let overrides = compiles_code && environment.optimize_chosen;
    let mut leading = if environment.ndk_fallback {
        Vec::new()
    } else {
        frontend_arguments(mode, target)
    };
    let ghost frontend = texts(leading@);
    if (compiles_code || links) && !overrides {
        leading.push(flag.to_owned());
    }
    assert(texts(leading@) =~= frontend + text_if(
        runs_driver(mode) && !overrides_optimize(rules),
        flag@,
    ));
    let ghost flagged = texts(leading@);
    if compiles_code && !environment.ndk_fallback {
        leading.push("-fno-sanitize=undefined".to_owned());
    }
    assert(texts(leading@) =~= flagged + text_if(
        compiles(mode) && !rules.ndk_fallback,
        "-fno-sanitize=undefined"@,
    ));
    let ghost unsanitized = texts(leading@);
    if links || compiles_code {
        let mut native = wrapper_arguments(
            if links {
                &environment.link_args
            } else {
                &environment.cflags
            },
        );
        let ghost flags = texts(native@);
        leading.append(&mut native);
        assert(texts(leading@) =~= unsanitized + flags);
    }
    assert(texts(leading@) =~= leading_arguments(rules, environment@, target@, flag@));
    let mut trailing: Vec<String> = Vec::new();
    if rules.windows && !rules.keep_runtime {
        trailing.push("-lunwind".to_owned());
    }
    if overrides {
        trailing.push(flag.to_owned());
    }
    assert(texts(trailing@) =~= trailing_arguments(rules, flag@));
    Ok(WrapperSetup { rules, tool, leading, trailing })
}

// ---------------------------------------------------------------------------
// The arguments of a wrapper

/// An argument of the command that a wrapper runs.
#[derive(Debug)]
pub enum WrapperArgument {
    /// This text.
    Text(String),
    /// The argument at this position that the wrapper was given, as it is.
    Original(usize),
}

/// What an argument of the command stands for.
pub enum ArgumentText {
    Text(Seq<char>),
    Original(int),
}

impl View for WrapperArgument {
    type V = ArgumentText;

    open spec fn view(&self) -> ArgumentText {
        match self {
            WrapperArgument::Text(text) => ArgumentText::Text(text@),
            WrapperArgument::Original(position) => ArgumentText::Original(*position as int),
        }
    }
}

/// What the arguments of the command stand for.
pub open spec fn argument_texts(list: Seq<WrapperArgument>) -> Seq<ArgumentText> {
    list.map_values(|argument: WrapperArgument| argument@)
}

/// What becomes of an argument that a wrapper was given.
pub enum Treatment {
    /// It is handed on as it is.
    Keep,
    /// It is left out.
    Drop,
    /// It is left out together with the argument that follows, its value.
    DropWithValue,
    /// It gives way to this text.
    Replace(Seq<char>),
}

/// Whether a linker argument is left out.
pub open spec fn is_dropped_by_linker(rules: WrapperRules, argument: Seq<char>) -> bool {
    let kept_runtime = rules.windows && rules.keep_runtime;
    ||| argument == "-nodefaultlibs"@ && !kept_runtime
    ||| rules.windows && !rules.keep_runtime && is_runtime_argument(argument)
    ||| rules.windows && is_image_base_argument(argument)
    ||| rules.musl && is_startup_argument(argument)
    ||| !rules.ndk_fallback && is_erratum_argument(argument)
}

/// What becomes of an argument that a wrapper was given. Zig's archiver tool
/// for DLLs knows no prefix for temporary files. A compiler of Zig's is told
/// its target by the wrapper alone. A linker leaves to Zig what Zig brings, and
/// keeps from it what it refuses.
pub open spec fn treatment(rules: WrapperRules, argument: Seq<char>) -> Treatment {
    let zig_compiles = compiles(rules.mode) && !rules.ndk_fallback;
    if rules.mode == WrapperMode::Dlltool && argument == "--temp-prefix"@ {
        Treatment::DropWithValue
    } else if zig_compiles && argument == "--target"@ {
        Treatment::DropWithValue
    } else if zig_compiles && "--target="@.is_prefix_of(argument) {
        Treatment::Drop
    } else if overrides_optimize(rules) && "-O"@.is_prefix_of(argument) {
        Treatment::Drop
    } else if rules.mode == WrapperMode::Linker && is_dropped_by_linker(rules, argument) {
        Treatment::Drop
    } else if rules.windows && definition_file(argument) is Some {
        Treatment::Replace(definition_file(argument)->0)
    } else {
        Treatment::Keep
    }
}

/// What the arguments from `from` on become.
pub open spec fn handed_on(rules: WrapperRules, arguments: Seq<Seq<char>>, from: int) -> Seq<
    ArgumentText,
>
    decreases arguments.len() + 1 - from,
{
    if from < 0 || from >= arguments.len() {
        seq![]
    } else {
        match treatment(rules, arguments[from]) {
            Treatment::Keep => seq![ArgumentText::Original(from)] + handed_on(
                rules,
                arguments,
                from + 1,
            ),
            Treatment::Drop => handed_on(rules, arguments, from + 1),
            Treatment::DropWithValue => handed_on(rules, arguments, from + 2),
            Treatment::Replace(text) => seq![ArgumentText::Text(text)] + handed_on(
                rules,
                arguments,
                from + 1,
            ),
        }
    }
}

/// Texts as arguments.
pub open spec fn as_arguments(list: Seq<Seq<char>>) -> Seq<ArgumentText> {
    list.map_values(|text: Seq<char>| ArgumentText::Text(text))
}

/// The arguments of the command that a wrapper runs.
pub open spec fn command_line(start: SetupText, arguments: Seq<Seq<char>>) -> Seq<ArgumentText> {
    as_arguments(start.leading) + handed_on(start.rules, arguments, 0) + as_arguments(start.trailing)
}

/// Whether a linker argument is left out.
fn linker_drops(rules: WrapperRules, argument: &str) -> (dropped: bool)
    ensures
        dropped == is_dropped_by_linker(rules, argument@),
{
    let kept_runtime = rules.windows && rules.keep_runtime;
    (same(argument, "-nodefaultlibs") && !kept_runtime) || (rules.windows && !rules.keep_runtime
        && is_windows_runtime_argument(argument)) || (rules.windows
        && is_windows_auto_image_base_argument(argument)) || (rules.musl
        && is_musl_startup_argument(argument)) || (!rules.ndk_fallback && is_cortex_erratum_argument(
        argument,
    ))
}

/// Appends texts to the arguments of a command.
fn append_texts(list: &mut Vec<WrapperArgument>, more: &Vec<String>)
    ensures
        argument_texts(final(list)@) == argument_texts(old(list)@) + as_arguments(texts(more@)),
{
    let ghost before = argument_texts(list@);
    let ghost added = as_arguments(texts(more@));
    let mut i: usize = 0;
    assert(before + added.take(0) =~= before);
    while i < more.len()
        invariant
            i <= more@.len(),
            added == as_arguments(texts(more@)),
            argument_texts(list@) == before + added.take(i as int),
        decreases more@.len() - i,
    {
        let ghost so_far = argument_texts(list@);
        list.push(WrapperArgument::Text(more[i].clone()));
        assert(argument_texts(list@) =~= so_far.push(added[i as int]));
        assert(before + added.take(i + 1) =~= (before + added.take(i as int)).push(
            added[i as int],
        ));
        i += 1;
    }
    assert(added.take(i as int) =~= added);
}

/// The arguments of the command that a wrapper runs.
pub fn wrapper_command_line(start: &WrapperSetup, arguments: &[String]) -> (list: Vec<
    WrapperArgument,
>)
    ensures
        argument_texts(list@) == command_line(start@, texts(arguments@)),
{
    let rules = start.rules;
    let ghost given = texts(arguments@);
    let ghost lead = as_arguments(start@.leading);
    let mut list: Vec<WrapperArgument> = Vec::new();
    append_texts(&mut list, &start.leading);
    assert(argument_texts(list@) =~= lead);
    let compiles_code = rules.mode == WrapperMode::Cc || rules.mode == WrapperMode::Cxx;
    let zig_compiles = compiles_code && !rules.ndk_fallback;
    let overrides = compiles_code && rules.optimize_chosen;
    let links = rules.mode == WrapperMode::Linker;
    let mut index: usize = 0;
    while index < arguments.len()
        invariant
            index <= arguments@.len(),
            rules == start.rules,
            given == texts(arguments@),
            compiles_code == compiles(rules.mode),
            zig_compiles == (compiles_code && !rules.ndk_fallback),
            overrides == overrides_optimize(rules),
            links == (rules.mode == WrapperMode::Linker),
            argument_texts(list@) + handed_on(rules, given, index as int) == lead + handed_on(
                rules,
                given,
                0,
            ),
        decreases arguments@.len() - index,
    {
        let argument = arguments[index].as_str();
        assert(given[index as int] == argument@);
        let ghost before = argument_texts(list@);
        if (rules.mode == WrapperMode::Dlltool && same(argument, "--temp-prefix")) || (zig_compiles
            && same(argument, "--target")) {
            if index + 1 < arguments.len() {
                index += 2;
            } else {
                assert(handed_on(rules, given, index + 2) =~= handed_on(rules, given, index + 1));
                index += 1;
            }
            continue;
        }
        if (zig_compiles && starts_with(argument, "--target=")) || (overrides && starts_with(
            argument,
            "-O",
        )) || (links && linker_drops(rules, argument)) {
            index += 1;
            continue;
        }
        let changed = if rules.windows {
            windows_definition_file(argument)
        } else {
            None
        };
        let ghost next = match definition_file(argument@) {
            Some(file) if rules.windows => ArgumentText::Text(file),
            _ => ArgumentText::Original(index as int),
        };
        match changed {
            Some(file) => {
                list.push(WrapperArgument::Text(file));
            },
            None => {
                list.push(WrapperArgument::Original(index));
            },
        }
        assert(argument_texts(list@) =~= before.push(next));
        assert(argument_texts(list@) + handed_on(rules, given, index + 1) =~= before + handed_on(
            rules,
            given,
            index as int,
        ));
        index += 1;
    }
    assert(argument_texts(list@) + handed_on(rules, given, index as int) =~= argument_texts(
        list@,
    ));
    append_texts(&mut list, &start.trailing);
    list
}

// ---------------------------------------------------------------------------
// Response files

/// How the response files of a wrapper are rewritten.
#[derive(Clone, Copy, Debug, PartialEq, Eq, Structural)]
pub enum ResponseRewrite {
    Windows,
    Musl,
    /// They lose the switch for the Cortex-A53 erratum alone.
    Plain,
    /// They are handed on as they are.
    Nothing,
}

/// How the response files that a wrapper is given are rewritten: those of every
/// link through Zig, for what Zig brings itself or refuses.
pub open spec fn rewrite_for(rules: WrapperRules) -> ResponseRewrite {
    if rules.windows {
        ResponseRewrite::Windows
    } else if rules.musl {
        ResponseRewrite::Musl
    } else if rules.mode == WrapperMode::Linker && !rules.ndk_fallback {
        ResponseRewrite::Plain
    } else {
        ResponseRewrite::Nothing
    }
}

/// How the response files that a wrapper is given are rewritten.
pub fn response_rewrite(rules: WrapperRules) -> (rewrite: ResponseRewrite)
    ensures
        rewrite == rewrite_for(rules),
{
    if rules.windows {
        ResponseRewrite::Windows
    } else if rules.musl {
        ResponseRewrite::Musl
    } else if rules.mode == WrapperMode::Linker && !rules.ndk_fallback {
        ResponseRewrite::Plain
    } else {
        ResponseRewrite::Nothing
    }
}

// ---------------------------------------------------------------------------
// The end of a wrapper

/// What messages call the program that a wrapper runs.
pub open spec fn tool_family(ndk_fallback: bool) -> Seq<char> {
    if ndk_fallback {
        "NDK LLVM"@
    } else {
        "Zig"@
    }
}

/// What messages call the tool that a wrapper stands in for.
pub open spec fn mode_name(mode: WrapperMode) -> Seq<char> {
    match mode {
        WrapperMode::Cc => "Cc"@,
        WrapperMode::Cxx => "Cxx"@,
        WrapperMode::Linker => "Linker"@,
        WrapperMode::Ar => "Ar"@,
        WrapperMode::Dlltool => "Dlltool"@,
    }
}

/// What messages call the program that a wrapper runs.
fn family_name(ndk_fallback: bool) -> (name: &'static str)
    ensures
        name@ == tool_family(ndk_fallback),
{
    if ndk_fallback {
        "NDK LLVM"
    } else {
        "Zig"
    }
}

/// What messages call the tool that a wrapper stands in for.
fn name_of_mode(mode: WrapperMode) -> (name: &'static str)
    ensures
        name@ == mode_name(mode),
{
    match mode {
        WrapperMode::Cc => "Cc",
        WrapperMode::Cxx => "Cxx",
        WrapperMode::Linker => "Linker",
        WrapperMode::Ar => "Ar",
        WrapperMode::Dlltool => "Dlltool",
    }
}

/// What a wrapper that was given `count` arguments reports of itself, where it
/// reports what it does. Nothing is reported of `dlltool`.
pub fn wrapper_trace(mode: WrapperMode, ndk_fallback: bool, count: usize) -> (line: Option<String>)
    ensures
        match line {
            Some(line) => mode != WrapperMode::Dlltool && line@
                == "cargo-zirild trace: invoking "@ + tool_family(ndk_fallback) + " in "@
                + mode_name(mode) + " mode with "@ + numeral(count as nat) + " arguments"@,
            None => mode == WrapperMode::Dlltool,
        },
{
    if mode == WrapperMode::Dlltool {
        return None;
    }
    let mut line = "cargo-zirild trace: invoking ".to_owned();
    line.append(family_name(ndk_fallback));
    line.append(" in ");
    line.append(name_of_mode(mode));
    line.append(" mode with ");
    line.append(write_number(count as u64).as_str());
    line.append(" arguments");
    Some(line)
}

/// The outcome of a wrapper, from how the program that it ran ended.
pub fn wrapper_outcome(mode: WrapperMode, ndk_fallback: bool, exit: &Exit) -> (outcome: Result<
    (),
    String,
>)
    ensures
        ({
            let family = tool_family(ndk_fallback);
            refusal(outcome) == exit_message(
                *exit,
                "failed to start "@ + family + ": "@,
                family + " "@ + mode_name(mode) + " failed with "@,
            )
        }),
{
    let family = family_name(ndk_fallback);
    let mut start = "failed to start ".to_owned();
    start.append(family);
    start.append(": ");
    let mut failure = family.to_owned();
    failure.append(" ");
    failure.append(name_of_mode(mode));
    failure.append(" failed with ");
    exit_outcome(exit, start.as_str(), failure.as_str())
}

} // verus!
