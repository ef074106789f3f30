//! What a command line asks of the driver.

use vstd::prelude::*;

use crate::arguments::{has_read_word, parse, parse_args, reads_word, BuildOptions, BuildSettings};
use crate::options::no_android_settings;
use crate::target::{is_android, is_android_target, is_windows_gnu, is_windows_gnu_target};
use crate::text::{same, texts};

verus! {

/// The line that answers `--version`.
pub const VERSION: &'static str = "cargo-zirild 0.1.9";

/// The text that answers `--help`.
pub const USAGE: &'static str =
    r#"cargo-zirild - run Cargo commands with the Zig toolchain

Usage:
  cargo zirild -target=<zig-target> [options] [cargo-command] [cargo options]

Required:
  -target=<zig-target>        Zig target, e.g. x86_64-linux-musl

Zig optimisation:
  (default/dev)               ReleaseSafe
  --release                   ReleaseFast
  -Z, --zig-release-small     ReleaseSmall
  --zig-opt=<mode>            Explicit: Debug, ReleaseSafe, ReleaseFast, ReleaseSmall
  -ZigOptimize=<mode>         The same as --zig-opt

Other options:
  --zig-path=<path>           Use this Zig executable/directory before Zig_home
  -zigpatch=<path>            The same as --zig-path
  --windows-runtime=<mode>    Windows GNU: auto, zig, or preserve rustc's C runtime
  --ndk-path=<path>           Android: use this NDK or directory of NDKs before Ndk_home
  -ndkversion=<version>       Android: select an exact NDK version below Ndk_home
  -nindx=<index>              Android: select NDK by newest-first index (0 = newest)
  -android-api=<level>        Android: use an Android API level for Zig's target
  -android-abi=<abi>          Android: validate ABI (arm64-v8a, x86_64, etc.)
  -android-stl=<name>         Android: export the requested NDK STL setting
  -android-cflag=<flag>       Android: pass one flag to the selected native compiler
  -android-link-arg=<flag>    Android: pass one flag to the selected native linker
  -ndkfallback                Android: explicitly use NDK Clang/LLD instead of Zig
  --trace                     Report what the tool wrappers do
  -V, --version               Show the version
  -h, --help                  Show this help

Cargo command:
  build (default), check, run, test, bench, rustc, clippy, doc, or asm

All remaining arguments are passed to the selected Cargo command, for example
--features, --package, --bin, --locked, and run arguments after --. Do not pass
Cargo's --target: -target is the single source of truth and is converted to
Cargo's corresponding Rust triple. Only asm takes a --target of its own.

Zig location:
  Set Zig_home to the Zig installation directory or the full path to zig/zig.exe.
  ZIG_HOME is taken where Zig_home is not set, and zig from PATH where neither is.

Android NDK location:
  Set Ndk_home to either an NDK installation or Android SDK's ndk directory
  containing version subdirectories. ANDROID_NDK_HOME and ANDROID_NDK_ROOT are
  taken in this order where Ndk_home is not set. Zirild always keeps Zig as the final
  compiler/linker; it never silently replaces it with NDK clang. CMake-style
  -DANDROID_ABI=..., -DANDROID_PLATFORM=android-<api>, and -DANDROID_STL=...
  are also parsed in Android mode. -ndkfallback is the explicit LLVM fallback.
"#;

/// What the driver is asked to do.
#[derive(Debug)]
pub enum Request {
    Help,
    Version,
    Build(BuildOptions),
}

/// Whether one of two words stands among the arguments in front of `--`.
pub open spec fn asks(arguments: Seq<Seq<char>>, long: Seq<char>, short: Seq<char>) -> bool {
    exists|i: int|
        {
            &&& 0 <= i < arguments.len()
            &&& #[trigger] arguments[i] == long || arguments[i] == short
            &&& forall|j: int| 0 <= j < i ==> #[trigger] arguments[j] != "--"@
        }
}

/// The build that a command line asks for, or the message that refuses it.
/// Options for one kind of target are refused for others.
pub open spec fn accepted_build(arguments: Seq<Seq<char>>) -> Result<BuildSettings, Seq<char>> {
    match parse(arguments) {
        Ok(build) => if !is_android(build.cargo_target) && build.android != no_android_settings() {
            Err("Android-only options require an Android -target"@)
        } else if build.windows_runtime is Some && !is_windows_gnu(build.cargo_target) {
            Err("--windows-runtime is only valid for a Windows GNU -target"@)
        } else {
            Ok(build)
        },
        Err(message) => Err(message),
    }
}

/// Whether one of two words stands among the arguments in front of `--`.
fn has_word(arguments: &Vec<String>, long: &str, short: &str) -> (found: bool)
    requires
        long@ != "--"@,
        short@ != "--"@,
    ensures
        found == asks(texts(arguments@), long@, short@),
{
    let ghost list = texts(arguments@);
    let mut i: usize = 0;
    while i < arguments.len()
        invariant
            i <= arguments@.len(),
            list == texts(arguments@),
            forall|j: int|
                0 <= j < i ==> {
                    &&& #[trigger] list[j] != "--"@
                    &&& list[j] != long@
                    &&& list[j] != short@
                },
        decreases arguments@.len() - i,
    {
        assert(list[i as int] == arguments@[i as int]@);
        let argument = arguments[i].as_str();
        if same(argument, long) || same(argument, short) {
            return true;
        }
        if same(argument, "--") {
            return false;
        }
        i += 1;
    }
    false
}

/// What a command line asks for. Help is asked for by any word in front of `--`,
/// the version by an argument that is no other option's value. Cargo passes the
/// subcommand's own name as an argument, which is not looked at.
pub fn request_of(args: Vec<String>) -> (request: Result<Request, String>)
    ensures
        ({
            let arguments = texts(args@);
            let help = asks(arguments, "--help"@, "-h"@);
            let version = reads_word(arguments, "--version"@, "-V"@);
            match request {
                Ok(Request::Help) => help,
                Ok(Request::Version) => !help && version,
                Ok(Request::Build(options)) => !help && !version && accepted_build(arguments)
                    == Ok::<BuildSettings, Seq<char>>(options@),
                Err(message) => !help && !version && accepted_build(arguments) == Err::<
                    BuildSettings,
                    Seq<char>,
                >(message@),
            }
        }),
{
    proof {
        reveal_strlit("--");
        reveal_strlit("--help");
        reveal_strlit("-h");
        assert("--"@[1] == '-' && "-h"@[1] == 'h');
        assert("--"@.len() == 2 && "--help"@.len() == 6);
    }
    if has_word(&args, "--help", "-h") {
        return Ok(Request::Help);
    }
    if has_read_word(&args, "--version", "-V") {
        return Ok(Request::Version);
    }
    let options = parse_args(args)?;
    let target = options.cargo_target.as_str();
    if !is_android_target(target) && options.android.is_configured() {
        return Err("Android-only options require an Android -target".to_owned());
    }
    if options.windows_runtime.is_some() && !is_windows_gnu_target(target) {
        return Err("--windows-runtime is only valid for a Windows GNU -target".to_owned());
    }
    Ok(Request::Build(options))
}

} // verus!
