//! The options of a build and the rules that they keep.

use vstd::prelude::*;
use vstd::string::StringExecFns;

use crate::decimal::{numeral, parse_u32, parsed, write_number};
use crate::target::{android_abi, android_abi_for_target};
use crate::text::{after_prefix, same, text_option, texts};

verus! {

/// What becomes of the C runtime that rustc asks a Windows linker for.
#[derive(Clone, Copy, Debug, PartialEq, Eq, Structural)]
pub enum WindowsRuntime {
    /// Zig's own runtime stands in for it wherever Zig has one.
    Auto,
    /// Zig's own runtime stands in for it.
    Zig,
    /// It is linked as rustc asked for it.
    Preserve,
}

/// Options that only an Android target takes.
#[derive(Debug)]
pub struct AndroidOptions {
    pub ndk_path: Option<String>,
    pub ndk_version: Option<String>,
    pub ndk_index: Option<usize>,
    pub api_level: Option<u32>,
    pub abi: Option<String>,
    pub stl: Option<String>,
    pub cflags: Vec<String>,
    pub link_args: Vec<String>,
    pub ndk_fallback: bool,
}

/// What Android options stand for.
#[verifier::ext_equal]
pub struct AndroidSettings {
    pub ndk_path: Option<Seq<char>>,
    pub ndk_version: Option<Seq<char>>,
    pub ndk_index: Option<usize>,
    pub api_level: Option<u32>,
    pub abi: Option<Seq<char>>,
    pub stl: Option<Seq<char>>,
    pub cflags: Seq<Seq<char>>,
    pub link_args: Seq<Seq<char>>,
    pub ndk_fallback: bool,
}

impl View for AndroidOptions {
    type V = AndroidSettings;

    open spec fn view(&self) -> AndroidSettings {
        AndroidSettings {
            ndk_path: text_option(self.ndk_path),
            ndk_version: text_option(self.ndk_version),
            ndk_index: self.ndk_index,
            api_level: self.api_level,
            abi: text_option(self.abi),
            stl: text_option(self.stl),
            cflags: texts(self.cflags@),
            link_args: texts(self.link_args@),
            ndk_fallback: self.ndk_fallback,
        }
    }
}

/// The Android settings of a command line without Android options.
pub open spec fn no_android_settings() -> AndroidSettings {
    AndroidSettings {
        ndk_path: None,
        ndk_version: None,
        ndk_index: None,
        api_level: None,
        abi: None,
        stl: None,
        cflags: seq![],
        link_args: seq![],
        ndk_fallback: false,
    }
}

impl Default for AndroidOptions {
    fn default() -> (options: Self)
        ensures
            options@ == no_android_settings(),
    {
        let options = AndroidOptions {
            ndk_path: None,
            ndk_version: None,
            ndk_index: None,
            api_level: None,
            abi: None,
            stl: None,
            cflags: Vec::new(),
            link_args: Vec::new(),
            ndk_fallback: false,
        };
        assert(options@ =~= no_android_settings());
        options
    }
}

impl AndroidOptions {
    /// Whether any Android option was given.
    pub fn is_configured(&self) -> (configured: bool)
        ensures
            configured == (self@ != no_android_settings()),
    {
        let configured = self.ndk_path.is_some() || self.ndk_version.is_some()
            || self.ndk_index.is_some() || self.api_level.is_some() || self.abi.is_some()
            || self.stl.is_some() || !self.cflags.is_empty() || !self.link_args.is_empty()
            || self.ndk_fallback;
        proof {
            if !configured {
                assert(self@ =~= no_android_settings());
            } else if self.cflags@.len() > 0 {
                assert(self@.cflags.len() > 0);
            } else if self.link_args@.len() > 0 {
                assert(self@.link_args.len() > 0);
            }
        }
        configured
    }
}

/// An API level as it is written: a number, after `android-` or without it.
pub open spec fn api_level_text(value: Seq<char>) -> Seq<char> {
    if "android-"@.is_prefix_of(value) {
        value.skip("android-"@.len() as int)
    } else {
        value
    }
}

/// The API level that a value asks for, next to one asked for before. The
/// value has to be a positive number, and the same as before.
pub open spec fn requested_api_level(previous: Option<u32>, value: Seq<char>) -> Result<
    u32,
    Seq<char>,
> {
    match parsed(api_level_text(value), u32::MAX as nat) {
        None => Err("invalid Android API level '"@ + api_level_text(value) + "'"@),
        Some(level) => if level == 0 {
            Err("Android API level must be greater than zero"@)
        } else if previous is Some && previous->0 != level {
            Err(
                "conflicting Android API levels: android-"@ + numeral(previous->0 as nat)
                    + " and android-"@ + numeral(level),
            )
        } else {
            Ok(level as u32)
        },
    }
}

/// Sets the API level that a value asks for. A value that is refused leaves
/// the options as they are.
pub fn set_android_api_level(android: &mut AndroidOptions, value: &str) -> (outcome: Result<
    (),
    String,
>)
    ensures
        match requested_api_level(old(android)@.api_level, value@) {
            Ok(level) => {
                &&& outcome is Ok
                &&& final(android)@ == (AndroidSettings {
                    api_level: Some(level),
                    ..old(android)@
                })
            },
            Err(message) => {
                &&& outcome is Err
                &&& outcome->Err_0@ == message
                &&& *final(android) == *old(android)
            },
        },
{
    let value = match after_prefix(value, "android-") {
        Some(rest) => rest,
        None => value.to_owned(),
    };
    let level = match parse_u32(value.as_str()) {
        Some(level) => level,
        None => {
            let mut message = "invalid Android API level '".to_owned();
            message.append(value.as_str());
            message.append("'");
            return Err(message);
        },
    };
    if level == 0 {
        return Err("Android API level must be greater than zero".to_owned());
    }
    if let Some(previous) = android.api_level {
        if previous != level {
            let mut message = "conflicting Android API levels: android-".to_owned();
            message.append(write_number(previous as u64).as_str());
            message.append(" and android-");
            message.append(write_number(level as u64).as_str());
            return Err(message);
        }
    }
    android.api_level = Some(level);
    Ok(())
}

/// Why Android options cannot be used together or not with a target, if so.
pub open spec fn android_refusal(settings: AndroidSettings, triple: Seq<char>) -> Option<
    Seq<char>,
> {
    if settings.ndk_version is Some && settings.ndk_index is Some {
        Some("use either -ndkversion or -nindx, not both"@)
    } else if settings.abi is Some && android_abi(triple) is Some && settings.abi != android_abi(
        triple,
    ) {
        Some(
            "Android ABI '"@ + settings.abi->0 + "' does not match target "@ + triple + "; use "@
                + android_abi(triple)->0,
        )
    } else {
        None
    }
}

/// Checks that Android options can be used together and with a target.
pub fn validate_android_options(android: &AndroidOptions, cargo_target: &str) -> (outcome: Result<
    (),
    String,
>)
    ensures
        match outcome {
            Ok(_) => android_refusal(android@, cargo_target@) is None,
            Err(message) => android_refusal(android@, cargo_target@) == Some(message@),
        },
{
    if android.ndk_version.is_some() && android.ndk_index.is_some() {
        return Err("use either -ndkversion or -nindx, not both".to_owned());
    }
    if let Some(abi) = &android.abi {
        if let Some(expected) = android_abi_for_target(cargo_target) {
            if !same(abi.as_str(), expected) {
                let mut message = "Android ABI '".to_owned();
                message.append(abi.as_str());
                message.append("' does not match target ");
                message.append(cargo_target);
                message.append("; use ");
                message.append(expected);
                return Err(message);
            }
        }
    }
    Ok(())
}

/// Whether a text names one of Zig's optimisation modes.
pub open spec fn is_optimize_mode(mode: Seq<char>) -> bool {
    mode == "Debug"@ || mode == "ReleaseSafe"@ || mode == "ReleaseFast"@ || mode == "ReleaseSmall"@
}

/// The message for an option `name` whose value is no optimisation mode.
pub open spec fn optimize_refusal(name: Seq<char>, value: Seq<char>) -> Seq<char> {
    "invalid "@ + name + " '"@ + value + "'; use Debug, ReleaseSafe, ReleaseFast, or ReleaseSmall"@
}

/// The optimisation mode that an option `name` asks for.
pub fn validate_optimize(name: &str, value: &str) -> (mode: Result<String, String>)
    ensures
        match mode {
            Ok(mode) => is_optimize_mode(value@) && mode@ == value@,
            Err(message) => !is_optimize_mode(value@) && message@ == optimize_refusal(name@, value@),
        },
{
    if same(value, "Debug") || same(value, "ReleaseSafe") || same(value, "ReleaseFast") || same(
        value,
        "ReleaseSmall",
    ) {
        return Ok(value.to_owned());
    }
    let mut message = "invalid ".to_owned();
    message.append(name);
    message.append(" '");
    message.append(value);
    message.append("'; use Debug, ReleaseSafe, ReleaseFast, or ReleaseSmall");
    Err(message)
}

/// The Windows runtime that a word asks for.
pub open spec fn runtime_named(word: Seq<char>) -> Option<WindowsRuntime> {
    if word == "auto"@ {
        Some(WindowsRuntime::Auto)
    } else if word == "zig"@ {
        Some(WindowsRuntime::Zig)
    } else if word == "preserve"@ {
        Some(WindowsRuntime::Preserve)
    } else {
        None
    }
}

/// The word that asks for a Windows runtime.
pub open spec fn runtime_name(runtime: WindowsRuntime) -> Seq<char> {
    match runtime {
        WindowsRuntime::Auto => "auto"@,
        WindowsRuntime::Zig => "zig"@,
        WindowsRuntime::Preserve => "preserve"@,
    }
}

/// The Windows runtime that a word asks for.
pub fn windows_runtime_named(word: &str) -> (runtime: Option<WindowsRuntime>)
    ensures
        runtime == runtime_named(word@),
{
    if same(word, "auto") {
        Some(WindowsRuntime::Auto)
    } else if same(word, "zig") {
        Some(WindowsRuntime::Zig)
    } else if same(word, "preserve") {
        Some(WindowsRuntime::Preserve)
    } else {
        None
    }
}

impl WindowsRuntime {
    /// The word that asks for this runtime.
    pub fn name(&self) -> (name: &'static str)
        ensures
            name@ == runtime_name(*self),
    {
        match self {
            WindowsRuntime::Auto => "auto",
            WindowsRuntime::Zig => "zig",
            WindowsRuntime::Preserve => "preserve",
        }
    }
}

/// The word for a runtime asks for that runtime.
pub proof fn law_runtime_name_reads_back(runtime: WindowsRuntime)
    ensures
        runtime_named(runtime_name(runtime)) == Some(runtime),
{
    reveal_strlit("auto");
    reveal_strlit("zig");
    reveal_strlit("preserve");
    assert("auto"@.len() == 4 && "zig"@.len() == 3 && "preserve"@.len() == 8);
}

} // verus!
