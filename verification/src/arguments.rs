//! The command line: which arguments are this tool's own, which select the
//! Cargo command, and which are handed on to Cargo.

use vstd::prelude::*;
use vstd::string::StringExecFns;

use crate::decimal::{numeral, parse_usize, parsed, write_number};
use crate::options::{
    android_refusal, is_optimize_mode, no_android_settings, optimize_refusal, requested_api_level,
    runtime_named, set_android_api_level, validate_android_options, validate_optimize,
    windows_runtime_named, AndroidOptions, AndroidSettings, WindowsRuntime,
};
use crate::target::{
    cargo_target, cargo_target_for, is_android, is_android_target, zig_target, zig_target_for,
};
use crate::text::{chars_of, find_char, lemma_find_char_is, same, text_between, text_option, texts};

verus! {

// ---------------------------------------------------------------------------
// Single arguments

/// An option of this tool that takes a value behind an equals sign.
#[derive(Clone, Copy, Debug, PartialEq, Eq, Structural)]
pub enum Setting {
    Target,
    Optimize,
    ZigPath,
    NdkPath,
    NdkVersion,
    NdkIndex,
    ApiLevel,
    Abi,
    Stl,
    CFlag,
    LinkArgument,
    WindowsRuntime,
}

/// The setting that a name in front of an equals sign stands for.
pub open spec fn setting_named(name: Seq<char>) -> Option<Setting> {
    if name == "-target"@ || name == "--target"@ {
        Some(Setting::Target)
    } else if name == "-ZigOptimize"@ || name == "--zig-opt"@ {
        Some(Setting::Optimize)
    } else if name == "-zigpatch"@ || name == "--zig-path"@ {
        Some(Setting::ZigPath)
    } else if name == "--ndk-path"@ {
        Some(Setting::NdkPath)
    } else if name == "-ndkversion"@ {
        Some(Setting::NdkVersion)
    } else if name == "-nindx"@ {
        Some(Setting::NdkIndex)
    } else if name == "-android-api"@ || name == "-DANDROID_PLATFORM"@ {
        Some(Setting::ApiLevel)
    } else if name == "-android-abi"@ || name == "-DANDROID_ABI"@ {
        Some(Setting::Abi)
    } else if name == "-android-stl"@ || name == "-DANDROID_STL"@ {
        Some(Setting::Stl)
    } else if name == "-android-cflag"@ {
        Some(Setting::CFlag)
    } else if name == "-android-link-arg"@ {
        Some(Setting::LinkArgument)
    } else if name == "--windows-runtime"@ {
        Some(Setting::WindowsRuntime)
    } else {
        None
    }
}

/// The setting that a name in front of an equals sign stands for.
fn find_setting(name: &str) -> (setting: Option<Setting>)
    ensures
        setting == setting_named(name@),
{
    if same(name, "-target") || same(name, "--target") {
        Some(Setting::Target)
    } else if same(name, "-ZigOptimize") || same(name, "--zig-opt") {
        Some(Setting::Optimize)
    } else if same(name, "-zigpatch") || same(name, "--zig-path") {
        Some(Setting::ZigPath)
    } else if same(name, "--ndk-path") {
        Some(Setting::NdkPath)
    } else if same(name, "-ndkversion") {
        Some(Setting::NdkVersion)
    } else if same(name, "-nindx") {
        Some(Setting::NdkIndex)
    } else if same(name, "-android-api") || same(name, "-DANDROID_PLATFORM") {
        Some(Setting::ApiLevel)
    } else if same(name, "-android-abi") || same(name, "-DANDROID_ABI") {
        Some(Setting::Abi)
    } else if same(name, "-android-stl") || same(name, "-DANDROID_STL") {
        Some(Setting::Stl)
    } else if same(name, "-android-cflag") {
        Some(Setting::CFlag)
    } else if same(name, "-android-link-arg") {
        Some(Setting::LinkArgument)
    } else if same(name, "--windows-runtime") {
        Some(Setting::WindowsRuntime)
    } else {
        None
    }
}

/// What stands in front of the first equals sign of an argument, or all of it.
pub open spec fn name_part(argument: Seq<char>) -> Seq<char> {
    argument.take(find_char(argument, '='))
}

/// What stands behind the first equals sign of an argument.
pub open spec fn value_part(argument: Seq<char>) -> Seq<char> {
    argument.skip(find_char(argument, '=') + 1)
}

/// The setting that an argument makes, if it is one of this tool's.
pub open spec fn setting_of(argument: Seq<char>) -> Option<Setting> {
    if find_char(argument, '=') < argument.len() {
        setting_named(name_part(argument))
    } else {
        None
    }
}

/// The parts of an argument in front of and behind its first equals sign.
fn split_setting(argument: &str) -> (parts: Option<(String, String)>)
    ensures
        match parts {
            Some((name, value)) => {
                &&& find_char(argument@, '=') < argument@.len()
                &&& name@ == name_part(argument@)
                &&& value@ == value_part(argument@)
            },
            None => find_char(argument@, '=') == argument@.len(),
        },
{
    let chars = chars_of(argument);
    let mut at: usize = 0;
    while at < chars.len() && chars[at] != '='
        invariant
            at <= chars@.len(),
            forall|i: int| 0 <= i < at ==> chars@[i] != '=',
        decreases chars@.len() - at,
    {
        at += 1;
    }
    proof {
        lemma_find_char_is(chars@, '=', at as int);
    }
    if at == chars.len() {
        None
    } else {
        assert(value_part(argument@) =~= chars@.subrange(at + 1, chars@.len() as int));
        assert(name_part(argument@) =~= chars@.subrange(0, at as int));
        Some((text_between(&chars, 0, at), text_between(&chars, at + 1, chars.len())))
    }
}

/// Whether a word is one of the Cargo commands that can be selected.
pub open spec fn is_cargo_command(word: Seq<char>) -> bool {
    ||| word == "build"@
    ||| word == "check"@
    ||| word == "run"@
    ||| word == "test"@
    ||| word == "bench"@
    ||| word == "rustc"@
    ||| word == "clippy"@
    ||| word == "doc"@
    ||| word == "asm"@
}

/// The Cargo command that an argument selects.
pub fn cargo_command_name(argument: &str) -> (command: Option<&'static str>)
    ensures
        command is Some <==> is_cargo_command(argument@),
        command is Some ==> command->0@ == argument@,
{
    if same(argument, "build") {
        Some("build")
    } else if same(argument, "check") {
        Some("check")
    } else if same(argument, "run") {
        Some("run")
    } else if same(argument, "test") {
        Some("test")
    } else if same(argument, "bench") {
        Some("bench")
    } else if same(argument, "rustc") {
        Some("rustc")
    } else if same(argument, "clippy") {
        Some("clippy")
    } else if same(argument, "doc") {
        Some("doc")
    } else if same(argument, "asm") {
        Some("asm")
    } else {
        None
    }
}

/// Whether a Cargo option takes the argument that follows it as its value.
pub open spec fn takes_value(option: Seq<char>) -> bool {
    ||| option == "-p"@
    ||| option == "--package"@
    ||| option == "--exclude"@
    ||| option == "-j"@
    ||| option == "--jobs"@
    ||| option == "-F"@
    ||| option == "--features"@
    ||| option == "--bin"@
    ||| option == "--example"@
    ||| option == "--test"@
    ||| option == "--bench"@
    ||| option == "--profile"@
    ||| option == "--manifest-path"@
    ||| option == "--message-format"@
    ||| option == "--target-dir"@
    ||| option == "--artifact-dir"@
    ||| option == "--color"@
    ||| option == "--config"@
}

/// Whether a Cargo option takes the argument that follows it as its value.
/// Keeping track of these keeps `--bin run` and the like from being taken for
/// anything but an option and its value.
pub fn cargo_option_takes_value(argument: &str) -> (takes: bool)
    ensures
        takes == takes_value(argument@),
{
    same(argument, "-p") || same(argument, "--package") || same(argument, "--exclude") || same(
        argument,
        "-j",
    ) || same(argument, "--jobs") || same(argument, "-F") || same(argument, "--features") || same(
        argument,
        "--bin",
    ) || same(argument, "--example") || same(argument, "--test") || same(argument, "--bench")
        || same(argument, "--profile") || same(argument, "--manifest-path") || same(
        argument,
        "--message-format",
    ) || same(argument, "--target-dir") || same(argument, "--artifact-dir") || same(
        argument,
        "--color",
    ) || same(argument, "--config")
}

// ---------------------------------------------------------------------------
// The command line, argument by argument

/// What the arguments read so far amount to.
#[verifier::ext_equal]
pub struct ParseState {
    pub target: Option<Seq<char>>,
    pub optimize: Option<Seq<char>>,
    pub zig_path: Option<Seq<char>>,
    pub release: bool,
    pub small: bool,
    pub trace: bool,
    pub windows_runtime: Option<WindowsRuntime>,
    pub command: Option<Seq<char>>,
    /// The positions of the arguments that are handed on to Cargo.
    pub forwarded: Seq<int>,
    pub android: AndroidSettings,
    /// `--` was read: all that follows is handed on.
    pub passthrough: bool,
    /// The next argument is the value of a Cargo option.
    pub value_expected: bool,
    /// An argument that only Cargo understands was read.
    pub cargo_begun: bool,
}

/// Before the first argument.
pub open spec fn initial_state() -> ParseState {
    ParseState {
        target: None,
        optimize: None,
        zig_path: None,
        release: false,
        small: false,
        trace: false,
        windows_runtime: None,
        command: None,
        forwarded: seq![],
        android: no_android_settings(),
        passthrough: false,
        value_expected: false,
        cargo_begun: false,
    }
}

/// The argument at a position is handed on to Cargo.
pub open spec fn forwarding(state: ParseState, position: int) -> ParseState {
    ParseState { forwarded: state.forwarded.push(position), ..state }
}

/// The message for an option `name` whose value is missing.
pub open spec fn empty_refusal(name: Seq<char>) -> Seq<char> {
    name + " cannot be empty"@
}

/// The state after a setting. Where a setting is made more than once, the last
/// one counts; flags add up, and API levels have to agree.
pub open spec fn apply_setting(
    state: ParseState,
    setting: Setting,
    name: Seq<char>,
    value: Seq<char>,
) -> Result<ParseState, Seq<char>> {
    match setting {
        Setting::Target => Ok(ParseState { target: Some(value), ..state }),
        Setting::Optimize => if is_optimize_mode(value) {
            Ok(ParseState { optimize: Some(value), ..state })
        } else {
            Err(optimize_refusal(name, value))
        },
        Setting::WindowsRuntime => match runtime_named(value) {
            Some(runtime) => Ok(ParseState { windows_runtime: Some(runtime), ..state }),
            None => Err("invalid "@ + name + " '"@ + value + "'; use auto, zig, or preserve"@),
        },
        Setting::NdkIndex => match parsed(value, usize::MAX as nat) {
            Some(index) => Ok(
                ParseState {
                    android: AndroidSettings { ndk_index: Some(index as usize), ..state.android },
                    ..state
                },
            ),
            None => Err(
                "invalid -nindx '"@ + value + "'; use a non-negative integer (0 = newest)"@,
            ),
        },
        Setting::ApiLevel => match requested_api_level(state.android.api_level, value) {
            Ok(level) => Ok(
                ParseState {
                    android: AndroidSettings { api_level: Some(level), ..state.android },
                    ..state
                },
            ),
            Err(message) => Err(message),
        },
        _ => if value.len() == 0 {
            Err(empty_refusal(name))
        } else {
            Ok(apply_text_setting(state, setting, value))
        },
    }
}

/// The state after a setting that takes any text but the empty one.
pub open spec fn apply_text_setting(
    state: ParseState,
    setting: Setting,
    value: Seq<char>,
) -> ParseState {
    let android = state.android;
    match setting {
        Setting::ZigPath => ParseState { zig_path: Some(value), ..state },
        Setting::NdkPath => ParseState {
            android: AndroidSettings { ndk_path: Some(value), ..android },
            ..state
        },
        Setting::NdkVersion => ParseState {
            android: AndroidSettings { ndk_version: Some(value), ..android },
            ..state
        },
        Setting::Abi => ParseState {
            android: AndroidSettings { abi: Some(value), ..android },
            ..state
        },
        Setting::Stl => ParseState {
            android: AndroidSettings { stl: Some(value), ..android },
            ..state
        },
        Setting::CFlag => ParseState {
            android: AndroidSettings { cflags: android.cflags.push(value), ..android },
            ..state
        },
        Setting::LinkArgument => ParseState {
            android: AndroidSettings { link_args: android.link_args.push(value), ..android },
            ..state
        },
        _ => state,
    }
}

/// Whether an argument is the target that the `asm` command is given itself.
pub open spec fn is_asm_target(state: ParseState, argument: Seq<char>) -> bool {
    &&& state.command == Some("asm"@)
    &&& argument == "--target"@ || (find_char(argument, '=') < argument.len() && name_part(argument)
        == "--target"@)
}

/// The state after one more argument, or the message with which it is refused.
pub open spec fn step(state: ParseState, argument: Seq<char>, position: int) -> Result<
    ParseState,
    Seq<char>,
> {
    if state.passthrough {
        Ok(forwarding(state, position))
    } else if state.value_expected {
        Ok(ParseState { value_expected: false, ..forwarding(state, position) })
    } else if argument == "zirild"@ && state.command is None {
        Ok(state)
    } else if is_asm_target(state, argument) {
        Ok(
            ParseState {
                value_expected: argument == "--target"@,
                cargo_begun: true,
                ..forwarding(state, position)
            },
        )
    } else if setting_of(argument) is Some {
        apply_setting(
            state,
            setting_of(argument)->0,
            name_part(argument),
            value_part(argument),
        )
    } else if argument == "-ndkfallback"@ {
        Ok(
            ParseState {
                android: AndroidSettings { ndk_fallback: true, ..state.android },
                ..state
            },
        )
    } else if argument == "--release"@ {
        Ok(ParseState { release: true, ..forwarding(state, position) })
    } else if argument == "-Z"@ || argument == "--zig-release-small"@ {
        Ok(ParseState { small: true, ..state })
    } else if argument == "--trace"@ {
        Ok(ParseState { trace: true, ..state })
    } else if argument == "--"@ {
        Ok(ParseState { passthrough: true, ..forwarding(state, position) })
    } else if argument == "--target"@ || argument == "-target"@ {
        Err("use -target=<zig-target>, not a separate Cargo --target"@)
    } else if state.command is None && !state.cargo_begun && is_cargo_command(argument) {
        Ok(ParseState { command: Some(argument), ..state })
    } else {
        Ok(
            ParseState {
                value_expected: takes_value(argument),
                cargo_begun: true,
                ..forwarding(state, position)
            },
        )
    }
}

/// The state after the first `count` arguments, or the message with which one
/// of them is refused.
pub open spec fn scan(arguments: Seq<Seq<char>>, count: nat) -> Result<ParseState, Seq<char>>
    decreases count,
{
    if count == 0 {
        Ok(initial_state())
    } else {
        match scan(arguments, (count - 1) as nat) {
            Ok(state) => step(state, arguments[count - 1], count - 1),
            Err(message) => Err(message),
        }
    }
}

/// Whether a state was reached in which the next argument is neither behind
/// `--` nor the value of a Cargo option.
pub open spec fn at_argument(state: ParseState) -> bool {
    !state.passthrough && !state.value_expected
}

/// Whether an argument was reached that no argument in front of it takes as its
/// value, hands on behind `--`, or keeps from being read by being refused.
pub open spec fn is_read(arguments: Seq<Seq<char>>, position: int) -> bool {
    scan(arguments, position as nat) matches Ok(state) && at_argument(state)
}

/// Whether one of two words stands among the arguments, read as an argument.
pub open spec fn reads_word(
    arguments: Seq<Seq<char>>,
    long: Seq<char>,
    short: Seq<char>,
) -> bool {
    exists|i: int|
        {
            &&& 0 <= i < arguments.len()
            &&& #[trigger] arguments[i] == long || arguments[i] == short
            &&& is_read(arguments, i)
        }
}

/// The executable counterpart of `ParseState`.
struct Parser {
    target: Option<String>,
    optimize: Option<String>,
    zig_path: Option<String>,
    release: bool,
    small: bool,
    trace: bool,
    windows_runtime: Option<WindowsRuntime>,
    command: Option<String>,
    forwarded: Vec<usize>,
    android: AndroidOptions,
    passthrough: bool,
    value_expected: bool,
    cargo_begun: bool,
}

/// Positions as mathematical integers.
pub open spec fn positions(list: Seq<usize>) -> Seq<int> {
    list.map_values(|position: usize| position as int)
}

impl Parser {
    spec fn state(self) -> ParseState {
        ParseState {
            target: text_option(self.target),
            optimize: text_option(self.optimize),
            zig_path: text_option(self.zig_path),
            release: self.release,
            small: self.small,
            trace: self.trace,
            windows_runtime: self.windows_runtime,
            command: text_option(self.command),
            forwarded: positions(self.forwarded@),
            android: self.android@,
            passthrough: self.passthrough,
            value_expected: self.value_expected,
            cargo_begun: self.cargo_begun,
        }
    }

    fn new() -> (parser: Parser)
        ensures
            parser.state() == initial_state(),
    {
        let parser = Parser {
            target: None,
            optimize: None,
            zig_path: None,
            release: false,
            small: false,
            trace: false,
            windows_runtime: None,
            command: None,
            forwarded: Vec::new(),
            android: AndroidOptions::default(),
            passthrough: false,
            value_expected: false,
            cargo_begun: false,
        };
        assert(parser.state() =~= initial_state());
        parser
    }

    fn forward(&mut self, position: usize)
        ensures
            final(self).state() == forwarding(old(self).state(), position as int),
    {
        self.forwarded.push(position);
        assert(self.state() =~= forwarding(old(self).state(), position as int));
    }

    fn apply(&mut self, setting: Setting, name: &str, value: String) -> (outcome: Result<
        (),
        String,
    >)
        ensures
            match outcome {
                Ok(_) => apply_setting(old(self).state(), setting, name@, value@) == Ok::<
                    ParseState,
                    Seq<char>,
                >(final(self).state()),
                Err(message) => apply_setting(old(self).state(), setting, name@, value@) == Err::<
                    ParseState,
                    Seq<char>,
                >(message@),
            },
    {
        let ghost before = self.state();
        let ghost text = value@;
        match setting {
            Setting::Target => {
                self.target = Some(value);
            },
            Setting::Optimize => {
                self.optimize = Some(validate_optimize(name, value.as_str())?);
            },
            Setting::WindowsRuntime => {
                match windows_runtime_named(value.as_str()) {
                    Some(runtime) => {
                        self.windows_runtime = Some(runtime);
                    },
                    None => {
                        let mut message = "invalid ".to_owned();
                        message.append(name);
                        message.append(" '");
                        message.append(value.as_str());
                        message.append("'; use auto, zig, or preserve");
                        return Err(message);
                    },
                }
            },
            Setting::NdkIndex => {
                match parse_usize(value.as_str()) {
                    Some(index) => {
                        self.android.ndk_index = Some(index);
                    },
                    None => {
                        let mut message = "invalid -nindx '".to_owned();
                        message.append(value.as_str());
                        message.append("'; use a non-negative integer (0 = newest)");
                        return Err(message);
                    },
                }
            },
            Setting::ApiLevel => {
                set_android_api_level(&mut self.android, value.as_str())?;
            },
            _ => {
                if value.as_str().is_empty() {
                    let mut message = name.to_owned();
                    message.append(" cannot be empty");
                    return Err(message);
                }
                match setting {
                    Setting::ZigPath => {
                        self.zig_path = Some(value);
                    },
                    Setting::NdkPath => {
                        self.android.ndk_path = Some(value);
                    },
                    Setting::NdkVersion => {
                        self.android.ndk_version = Some(value);
                    },
                    Setting::Abi => {
                        self.android.abi = Some(value);
                    },
                    Setting::Stl => {
                        self.android.stl = Some(value);
                    },
                    Setting::CFlag => {
                        self.android.cflags.push(value);
                        assert(self.android@.cflags =~= before.android.cflags.push(text));
                    },
                    Setting::LinkArgument => {
                        self.android.link_args.push(value);
                        assert(self.android@.link_args =~= before.android.link_args.push(text));
                    },
                    _ => {},
                }
            },
        }
        Ok(())
    }

    fn accept(&mut self, argument: &str, position: usize) -> (outcome: Result<(), String>)
        ensures
            match outcome {
                Ok(_) => step(old(self).state(), argument@, position as int) == Ok::<
                    ParseState,
                    Seq<char>,
                >(final(self).state()),
                Err(message) => step(old(self).state(), argument@, position as int) == Err::<
                    ParseState,
                    Seq<char>,
                >(message@),
            },
    {
        if self.passthrough {
            self.forward(position);
            return Ok(());
        }
        if self.value_expected {
            self.forward(position);
            self.value_expected = false;
            return Ok(());
        }
        if self.command.is_none() && same(argument, "zirild") {
            return Ok(());
        }
        let assembly = match &self.command {
            Some(command) => same(command.as_str(), "asm"),
            None => false,
        };
        if assembly && same(argument, "--target") {
            self.forward(position);
            self.value_expected = true;
            self.cargo_begun = true;
            return Ok(());
        }
        if let Some((name, value)) = split_setting(argument) {
            if assembly && same(name.as_str(), "--target") {
                self.forward(position);
                self.cargo_begun = true;
                return Ok(());
            }
            if let Some(setting) = find_setting(name.as_str()) {
                return self.apply(setting, name.as_str(), value);
            }
        }
        if same(argument, "-ndkfallback") {
            self.android.ndk_fallback = true;
        } else if same(argument, "--release") {
            self.release = true;
            self.forward(position);
        } else if same(argument, "-Z") || same(argument, "--zig-release-small") {
            self.small = true;
        } else if same(argument, "--trace") {
            self.trace = true;
        } else if same(argument, "--") {
            self.passthrough = true;
            self.forward(position);
        } else if same(argument, "--target") || same(argument, "-target") {
            return Err("use -target=<zig-target>, not a separate Cargo --target".to_owned());
        } else if self.command.is_none() && !self.cargo_begun && cargo_command_name(
            argument,
        ).is_some() {
            self.command = Some(argument.to_owned());
        } else {
            self.value_expected = cargo_option_takes_value(argument);
            self.cargo_begun = true;
            self.forward(position);
        }
        Ok(())
    }
}

// ---------------------------------------------------------------------------
// The build that a command line asks for

/// A build, as the command line asks for it.
#[derive(Debug)]
pub struct BuildOptions {
    /// The target in Zig's spelling, with the Android API level where one is set.
    pub zig_target: String,
    /// The Rust triple for Cargo.
    pub cargo_target: String,
    /// Zig's optimisation mode.
    pub optimize: String,
    /// Whether the command line chose that mode itself.
    pub optimize_chosen: bool,
    pub zig_patch: Option<String>,
    pub windows_runtime: Option<WindowsRuntime>,
    pub trace: bool,
    pub cargo_command: String,
    /// The arguments that are handed on to Cargo.
    pub cargo_args: Vec<String>,
    /// The position of each of them on the command line.
    pub cargo_positions: Vec<usize>,
    pub android: AndroidOptions,
}

/// What the options of a build stand for.
#[verifier::ext_equal]
pub struct BuildSettings {
    pub zig_target: Seq<char>,
    pub cargo_target: Seq<char>,
    pub optimize: Seq<char>,
    pub optimize_chosen: bool,
    pub zig_patch: Option<Seq<char>>,
    pub windows_runtime: Option<WindowsRuntime>,
    pub trace: bool,
    pub cargo_command: Seq<char>,
    pub cargo_args: Seq<Seq<char>>,
    pub cargo_positions: Seq<int>,
    pub android: AndroidSettings,
}

impl View for BuildOptions {
    type V = BuildSettings;

    open spec fn view(&self) -> BuildSettings {
        BuildSettings {
            zig_target: self.zig_target@,
            cargo_target: self.cargo_target@,
            optimize: self.optimize@,
            optimize_chosen: self.optimize_chosen,
            zig_patch: text_option(self.zig_patch),
            windows_runtime: self.windows_runtime,
            trace: self.trace,
            cargo_command: self.cargo_command@,
            cargo_args: texts(self.cargo_args@),
            cargo_positions: positions(self.cargo_positions@),
            android: self.android@,
        }
    }
}

/// The optimisation mode: the one that was asked for by name, else the small
/// one where that was asked for, else the one for Cargo's profile.
pub open spec fn optimize_mode(state: ParseState) -> Seq<char> {
    match state.optimize {
        Some(mode) => mode,
        None => if state.small {
            "ReleaseSmall"@
        } else if state.release {
            "ReleaseFast"@
        } else {
            "ReleaseSafe"@
        },
    }
}

/// Zig's spelling of a target, with the API level behind an Android target.
pub open spec fn zig_target_with_level(target: Seq<char>, level: Option<u32>) -> Seq<char> {
    if is_android(cargo_target(target)) && level is Some {
        zig_target(target) + "."@ + numeral(level->0 as nat)
    } else {
        zig_target(target)
    }
}

/// The build that the arguments ask for, once all of them are read.
pub open spec fn finish(arguments: Seq<Seq<char>>, state: ParseState) -> Result<
    BuildSettings,
    Seq<char>,
> {
    match state.target {
        None => Err("missing required -target=<zig-target>"@),
        Some(target) => {
            let triple = cargo_target(target);
            if target.len() == 0 {
                Err("-target cannot be empty"@)
            } else if is_android(triple) && android_refusal(state.android, triple) is Some {
                Err(android_refusal(state.android, triple)->0)
            } else {
                Ok(
                    BuildSettings {
                        zig_target: zig_target_with_level(target, state.android.api_level),
                        cargo_target: triple,
                        optimize: optimize_mode(state),
                        optimize_chosen: state.optimize is Some || state.small,
                        zig_patch: state.zig_path,
                        windows_runtime: state.windows_runtime,
                        trace: state.trace,
                        cargo_command: match state.command {
                            Some(command) => command,
                            None => "build"@,
                        },
                        cargo_args: state.forwarded.map_values(
                            |position: int| arguments[position],
                        ),
                        cargo_positions: state.forwarded,
                        android: state.android,
                    },
                )
            }
        },
    }
}

/// The build that a command line asks for, or the message that refuses it.
pub open spec fn parse(arguments: Seq<Seq<char>>) -> Result<BuildSettings, Seq<char>> {
    match scan(arguments, arguments.len()) {
        Ok(state) => finish(arguments, state),
        Err(message) => Err(message),
    }
}

/// Where one of the first arguments is refused, so is the command line.
pub proof fn lemma_refusal_stays(arguments: Seq<Seq<char>>, count: nat)
    requires
        count <= arguments.len(),
        scan(arguments, count) is Err,
    ensures
        scan(arguments, arguments.len()) == scan(arguments, count),
    decreases arguments.len() - count,
{
    if count < arguments.len() {
        lemma_refusal_stays(arguments, count + 1);
    }
}

/// Where one of the first arguments is refused, none behind it is read.
proof fn lemma_refusal_stops(arguments: Seq<Seq<char>>, count: nat, later: nat)
    requires
        count <= later,
        scan(arguments, count) is Err,
    ensures
        scan(arguments, later) is Err,
    decreases later - count,
{
    if count < later {
        lemma_refusal_stops(arguments, count, (later - 1) as nat);
    }
}

/// What is handed on are arguments, in their order.
pub proof fn lemma_forwarded_in_order(arguments: Seq<Seq<char>>, count: nat)
    ensures
        scan(arguments, count) matches Ok(state) ==> {
            &&& forall|i: int|
                0 <= i < state.forwarded.len() ==> 0 <= #[trigger] state.forwarded[i] < count
            &&& forall|i: int, j: int|
                0 <= i < j < state.forwarded.len() ==> state.forwarded[i] < state.forwarded[j]
        },
    decreases count,
{
    if count > 0 {
        lemma_forwarded_in_order(arguments, (count - 1) as nat);
    }
}

/// Whether neither of two words is read among the first arguments.
spec fn reads_none(
    arguments: Seq<Seq<char>>,
    long: Seq<char>,
    short: Seq<char>,
    count: int,
) -> bool {
    forall|j: int|
        0 <= j < count && is_read(arguments, j) ==> #[trigger] arguments[j] != long && arguments[j]
            != short
}

/// One more argument is read, or refused with all behind it.
proof fn lemma_next_argument(arguments: Seq<Seq<char>>, state: ParseState, count: nat)
    requires
        count < arguments.len(),
        scan(arguments, count) == Ok::<ParseState, Seq<char>>(state),
    ensures
        is_read(arguments, count as int) == at_argument(state),
        scan(arguments, count + 1) == step(state, arguments[count as int], count as int),
        scan(arguments, count + 1) is Err ==> forall|j: int|
            count < j < arguments.len() ==> !is_read(arguments, j),
{
    if scan(arguments, count + 1) is Err {
        assert forall|j: int| count < j < arguments.len() implies !is_read(arguments, j) by {
            lemma_refusal_stops(arguments, count + 1, j as nat);
        }
    }
}

/// Whether one of two words stands among the arguments, read as an argument.
#[verifier::spinoff_prover]
pub(crate) fn has_read_word(args: &Vec<String>, long: &str, short: &str) -> (found: bool)
    ensures
        found == reads_word(texts(args@), long@, short@),
{
    let ghost arguments = texts(args@);
    let mut parser = Parser::new();
    let mut i: usize = 0;
    while i < args.len()
        invariant
            i <= args@.len(),
            arguments == texts(args@),
            scan(arguments, i as nat) == Ok::<ParseState, Seq<char>>(parser.state()),
            reads_none(arguments, long@, short@, i as int),
        decreases args@.len() - i,
    {
        let argument = args[i].as_str();
        let ghost state = parser.state();
        proof {
            lemma_next_argument(arguments, state, i as nat);
            assert(arguments[i as int] == argument@);
        }
        if !parser.passthrough && !parser.value_expected && (same(argument, long) || same(
            argument,
            short,
        )) {
            return true;
        }
        if parser.accept(argument, i).is_err() {
            assert(reads_none(arguments, long@, short@, arguments.len() as int));
            return false;
        }
        i += 1;
    }
    false
}

/// Reads a command line.
pub fn parse_args(args: Vec<String>) -> (options: Result<BuildOptions, String>)
    ensures
        match options {
            Ok(options) => parse(texts(args@)) == Ok::<BuildSettings, Seq<char>>(options@),
            Err(message) => parse(texts(args@)) == Err::<BuildSettings, Seq<char>>(message@),
        },
{
    let ghost arguments = texts(args@);
    let mut parser = Parser::new();
    let mut i: usize = 0;
    while i < args.len()
        invariant
            i <= args@.len(),
            arguments == texts(args@),
            scan(arguments, i as nat) == Ok::<ParseState, Seq<char>>(parser.state()),
        decreases args@.len() - i,
    {
        assert(arguments[i as int] == args@[i as int]@);
        assert(scan(arguments, (i + 1) as nat) == step(
            parser.state(),
            arguments[i as int],
            i as int,
        ));
        if let Err(message) = parser.accept(args[i].as_str(), i) {
            proof {
                lemma_refusal_stays(arguments, (i + 1) as nat);
            }
            return Err(message);
        }
        i += 1;
    }
    let ghost state = parser.state();
    let target = match parser.target {
        Some(target) => target,
        None => {
            return Err("missing required -target=<zig-target>".to_owned());
        },
    };
    if target.as_str().is_empty() {
        return Err("-target cannot be empty".to_owned());
    }
    let optimize_chosen = parser.optimize.is_some() || parser.small;
    let optimize = match parser.optimize {
        Some(mode) => mode,
        None => if parser.small {
            "ReleaseSmall".to_owned()
        } else if parser.release {
            "ReleaseFast".to_owned()
        } else {
            "ReleaseSafe".to_owned()
        },
    };
    let cargo_target = cargo_target_for(target.as_str());
    let mut zig_target = zig_target_for(target.as_str());
    if is_android_target(cargo_target.as_str()) {
        validate_android_options(&parser.android, cargo_target.as_str())?;
        if let Some(api_level) = parser.android.api_level {
            zig_target.append(".");
            zig_target.append(write_number(api_level as u64).as_str());
        }
    }
    let mut cargo_args: Vec<String> = Vec::new();
    let mut k: usize = 0;
    proof {
        lemma_forwarded_in_order(arguments, arguments.len());
        assert forall|j: int| 0 <= j < parser.forwarded@.len() implies (
        #[trigger] parser.forwarded@[j]) < args@.len() by {
            assert(state.forwarded[j] == parser.forwarded@[j]);
        }
    }
    while k < parser.forwarded.len()
        invariant
            k <= parser.forwarded@.len(),
            arguments == texts(args@),
            cargo_args@.len() == k,
            forall|j: int|
                0 <= j < parser.forwarded@.len() ==> (#[trigger] parser.forwarded@[j])
                    < args@.len(),
            forall|j: int|
                0 <= j < k ==> (#[trigger] cargo_args@[j])@
                    == args@[parser.forwarded@[j] as int]@,
        decreases parser.forwarded@.len() - k,
    {
        cargo_args.push(args[parser.forwarded[k]].clone());
        k += 1;
    }
    assert(texts(cargo_args@) =~= state.forwarded.map_values(|position: int| arguments[position]));
    let cargo_command = match parser.command {
        Some(command) => command,
        None => "build".to_owned(),
    };
    Ok(
        BuildOptions {
            zig_target,
            cargo_target,
            optimize,
            optimize_chosen,
            zig_patch: parser.zig_path,
            windows_runtime: parser.windows_runtime,
            trace: parser.trace,
            cargo_command,
            cargo_args,
            cargo_positions: parser.forwarded,
            android: parser.android,
        },
    )
}

} // verus!
