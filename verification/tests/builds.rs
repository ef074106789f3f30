use cargo_zirild::arguments::{parse_args, BuildOptions};
use cargo_zirild::cargo::{
    android_target_warnings, cargo_announcement, cargo_environment_variables,
    cargo_leading_arguments, cargo_outcome, EnvironmentValue, NdkIdentity,
};
use cargo_zirild::decimal::{parse_u32, parse_usize, write_number};
use cargo_zirild::exit::Exit;
use cargo_zirild::options::{windows_runtime_named, WindowsRuntime};
use cargo_zirild::steps::{next_step, DriverStep};
use cargo_zirild::text::{
    ends_with, join, lines_of, position_of, replace_char, same_ignoring_case, split_at_char, trim,
    unquote,
};
use cargo_zirild::zig::{
    validate_zig_path, verify_zig, zig_executable, zig_executable_names, zig_variables,
    ZigExecutable, ZigPath, ZigSource,
};

fn build(arguments: &[&str]) -> BuildOptions {
    parse_args(arguments.iter().map(|argument| argument.to_string()).collect()).unwrap()
}

fn environment(arguments: &[&str]) -> Vec<(String, String)> {
    cargo_environment_variables(&build(arguments))
        .into_iter()
        .map(|variable| {
            let value = match variable.value {
                EnvironmentValue::Text(text) => text,
                other => format!("<{other:?}>"),
            };
            (variable.name, value)
        })
        .collect()
}

fn pairs(list: &[(&str, &str)]) -> Vec<(String, String)> {
    list.iter().map(|(name, value)| (name.to_string(), value.to_string())).collect()
}

fn ndk() -> Option<NdkIdentity> {
    Some(NdkIdentity { version: "27.1".to_string(), root: "/ndk".to_string() })
}

#[test]
fn cargo_is_given_command_and_target() {
    let options = build(&["-target=x86_64-linux-musl", "check", "--locked"]);
    assert_eq!(
        cargo_leading_arguments(&options),
        ["check", "--target", "x86_64-unknown-linux-musl"]
    );
    let options = build(&["-target=x86_64-linux-musl", "asm", "main"]);
    assert_eq!(
        cargo_leading_arguments(&options),
        ["asm", "--target", "x86_64-unknown-linux-musl"]
    );
    let options = build(&["-target=x86_64-linux-musl", "asm", "--target=x", "main"]);
    assert_eq!(cargo_leading_arguments(&options), ["asm"]);
    let options = build(&["-target=x86_64-linux-musl", "asm", "main", "--", "--target"]);
    assert_eq!(cargo_leading_arguments(&options).len(), 3);
}

#[test]
fn environment_names_the_wrappers() {
    assert_eq!(
        environment(&["-target=x86_64-linux-gnu"]),
        pairs(&[
            ("CARGO_ZIRILD_ZIG", "<Zig>"),
            ("CARGO_ZIRILD_ZIG_TARGET", "x86_64-linux-gnu"),
            ("CARGO_ZIRILD_OPTIMIZE", "ReleaseSafe"),
            ("CARGO_TARGET_X86_64_UNKNOWN_LINUX_GNU_LINKER", "<WrapperLinker>"),
            ("CARGO_TARGET_X86_64_UNKNOWN_LINUX_GNU_AR", "<WrapperAr>"),
            ("CC_x86_64-unknown-linux-gnu", "<WrapperCc>"),
            ("CXX_x86_64-unknown-linux-gnu", "<WrapperCxx>"),
            ("AR_x86_64-unknown-linux-gnu", "<WrapperAr>"),
            ("CC_x86_64_unknown_linux_gnu", "<WrapperCc>"),
            ("CXX_x86_64_unknown_linux_gnu", "<WrapperCxx>"),
            ("AR_x86_64_unknown_linux_gnu", "<WrapperAr>"),
            ("PATH", "<SearchPath>"),
        ])
    );
}

#[test]
fn msvc_keeps_the_system_tools() {
    assert_eq!(
        environment(&["-target=x86_64-pc-windows", "--release", "--zig-release-small"]),
        pairs(&[
            ("CARGO_ZIRILD_ZIG", "<Zig>"),
            ("CARGO_ZIRILD_ZIG_TARGET", "x86_64-windows-msvc"),
            ("CARGO_ZIRILD_OPTIMIZE", "ReleaseSmall"),
            ("CARGO_ZIRILD_OPTIMIZE_CHOSEN", "1"),
        ])
    );
}

#[test]
fn environment_describes_android_builds() {
    let list = environment(&[
        "-target=armv7-linux-android",
        "-android-api=24",
        "-android-abi=armeabi-v7a",
        "-android-stl=c++_static",
        "-android-cflag=-a",
        "-android-cflag=-b",
        "-ndkfallback",
    ]);
    assert_eq!(
        list[..16],
        pairs(&[
            ("CARGO_ZIRILD_ZIG_TARGET", "armv7-linux-android.24"),
            ("CARGO_ZIRILD_OPTIMIZE", "ReleaseSafe"),
            ("CARGO_ZIRILD_ANDROID_SYSROOT", "<Sysroot>"),
            ("CARGO_ZIRILD_ANDROID_CFLAGS", "-a\n-b"),
            ("CARGO_ZIRILD_ANDROID_LINK_ARGS", ""),
            ("ANDROID_NDK_ROOT", "<NdkRoot>"),
            ("CMAKE_ANDROID_NDK", "<NdkRoot>"),
            ("CARGO_ZIRILD_NDK_FALLBACK", "1"),
            ("CARGO_ZIRILD_NDK_CC", "<NdkCc>"),
            ("CARGO_ZIRILD_NDK_CXX", "<NdkCxx>"),
            ("CARGO_ZIRILD_NDK_AR", "<NdkAr>"),
            ("ANDROID_ABI", "armeabi-v7a"),
            ("ANDROID_PLATFORM", "android-24"),
            ("ANDROID_STL", "c++_static"),
            ("CARGO_TARGET_ARMV7_LINUX_ANDROIDEABI_LINKER", "<WrapperLinker>"),
            ("CARGO_TARGET_ARMV7_LINUX_ANDROIDEABI_AR", "<WrapperAr>"),
        ])
    );
}

#[test]
fn announcements_name_the_tools() {
    assert_eq!(
        cargo_announcement(&build(&["-target=x86_64-linux-gnu", "run"]), &None),
        ["+ cargo run --target x86_64-unknown-linux-gnu (Zig x86_64-linux-gnu / ReleaseSafe)"]
    );
    assert_eq!(
        cargo_announcement(&build(&["-target=x86_64-pc-windows", "--release"]), &None),
        ["+ cargo build --target x86_64-pc-windows-msvc (MSVC toolchain / ReleaseFast)"]
    );
    assert_eq!(
        cargo_announcement(&build(&["-target=x86_64-linux-android"]), &ndk()),
        ["+ cargo build --target x86_64-linux-android (Zig x86_64-linux-android / Android NDK 27.1 at /ndk / ReleaseSafe)"]
    );
    assert_eq!(
        cargo_announcement(&build(&["-target=x86_64-linux-android", "-ndkfallback"]), &ndk()),
        [
            "cargo-zirild: WARNING: -ndkfallback enabled. This build uses Android NDK Clang/LLD directly; the final output is not linked by Zig.",
            "+ cargo build --target x86_64-linux-android (Android NDK Clang/LLD fallback 27.1 at /ndk / ReleaseSafe)",
        ]
    );
}

#[test]
fn android_targets_are_warned_about() {
    assert!(android_target_warnings("x86_64-linux-gnu", &None, false).is_empty());
    assert_eq!(
        android_target_warnings("x86_64-linux-android.24", &ndk(), true),
        ["cargo-zirild: Android NDK 27.1 selected at '/ndk'; -ndkfallback will use its Clang/LLD tools directly."]
    );
    assert_eq!(
        android_target_warnings("x86_64-linux-android.24", &ndk(), false),
        [
            "cargo-zirild: Android NDK 27.1 selected at '/ndk'; its root and sysroot are exported to build scripts while Zig remains the compiler and final linker.",
            "cargo-zirild: note: this Zig distribution cannot currently link Android libc, including an NDK sysroot. Zirild will not fall back to NDK clang because that would violate its single Zig linker contract. For a musl-based Android-compatible native build, try -target=x86_64-linux-musl instead; this is a musl Linux binary and not an Android-NDK-linked binary.",
        ]
    );
}

#[test]
fn cargo_outcomes_are_reported() {
    assert_eq!(cargo_outcome("run", &Exit::Succeeded), Ok(()));
    assert_eq!(
        cargo_outcome("run", &Exit::Failed("exit status: 101".into())),
        Err("cargo run failed with exit status: 101".to_string())
    );
    assert_eq!(
        cargo_outcome("run", &Exit::NotStarted("not found".into())),
        Err("failed to start cargo: not found".to_string())
    );
}

#[test]
fn zig_is_looked_for_by_option_first() {
    let path = Some("/zig".to_string());
    let set = |list: &[&str]| list.iter().map(|name| name.to_string()).collect::<Vec<_>>();
    let name = |patch: &Option<String>, list: &[&str]| {
        zig_executable(patch, &set(list)).name().to_string()
    };
    assert_eq!(zig_variables(), ["Zig_home", "ZIG_HOME"]);
    assert!(matches!(zig_executable(&path, &set(&["Zig_home"])), ZigSource::Option));
    assert_eq!(name(&path, &[]), "-zigpatch");
    assert_eq!(name(&None, &["ZIG_HOME", "Zig_home"]), "Zig_home");
    assert_eq!(name(&None, &["ZIG_HOME"]), "ZIG_HOME");
    assert!(matches!(zig_executable(&None, &set(&[])), ZigSource::SearchPath));
    assert_eq!(name(&None, &["zig_home"]), "PATH");
}

#[test]
fn zig_is_a_file_or_in_a_directory() {
    assert_eq!(zig_executable_names(true), ["zig.exe", "zig"]);
    assert_eq!(zig_executable_names(false), ["zig"]);
    let check = |found: ZigPath, windows| validate_zig_path(&found, "/zig", "Zig_home", windows);
    assert!(matches!(check(ZigPath::File, false), Ok(ZigExecutable::Path)));
    assert_eq!(
        check(ZigPath::Missing, false).unwrap_err(),
        "Zig_home path does not exist: /zig"
    );
    let both = || ZigPath::Directory(vec!["zig".to_string(), "zig.exe".to_string()]);
    match check(both(), true) {
        Ok(ZigExecutable::Within(name)) => assert_eq!(name, "zig.exe"),
        other => panic!("{other:?}"),
    }
    match check(both(), false) {
        Ok(ZigExecutable::Within(name)) => assert_eq!(name, "zig"),
        other => panic!("{other:?}"),
    }
    assert_eq!(
        check(ZigPath::Directory(Vec::new()), true).unwrap_err(),
        "could not find zig.exe in Zig_home directory '/zig'"
    );
}

#[test]
fn zig_is_verified_by_its_version() {
    let home = ZigSource::Variable("Zig_home".to_string());
    assert_eq!(verify_zig("/zig", &home, &Exit::Succeeded), Ok(()));
    assert_eq!(
        verify_zig("/zig", &home, &Exit::NotStarted("denied".into())),
        Err("Zig_home does not point to an executable Zig: denied".to_string())
    );
    assert_eq!(
        verify_zig("/zig", &ZigSource::Option, &Exit::Failed("exit status: 2".into())),
        Err("-zigpatch points to '/zig', but Zig version validation failed with exit status: 2".to_string())
    );
}

#[test]
fn zig_missing_everywhere_is_reported() {
    let path = ZigSource::SearchPath;
    assert_eq!(verify_zig("zig", &path, &Exit::Succeeded), Ok(()));
    assert_eq!(
        verify_zig("zig", &path, &Exit::NotStarted("not found".into())),
        Err("Zig_home is not set; set Zig_home or pass -zigpatch=<zig path>".to_string())
    );
    assert_eq!(
        verify_zig("zig", &path, &Exit::Failed("exit status: 2".into())),
        Err("PATH points to 'zig', but Zig version validation failed with exit status: 2".to_string())
    );
}

fn run_of(arguments: &[&str], failing: Option<DriverStep>) -> Vec<DriverStep> {
    let options = build(arguments);
    let mut steps = Vec::new();
    let mut done = DriverStep::Accept;
    let mut failed = false;
    while let Some(step) = next_step(&options, done, failed) {
        steps.push(step);
        failed = failing == Some(step);
        done = step;
    }
    steps
}

#[test]
fn steps_come_in_order() {
    let plain = ["-target=x86_64-linux-gnu"];
    assert_eq!(run_of(&plain, None), [DriverStep::FindZig, DriverStep::Warn, DriverStep::MakeWrappers, DriverStep::RunCargo, DriverStep::RemoveWrappers]);
    let android = ["-target=x86_64-linux-android"];
    assert_eq!(
        run_of(&android, None),
        [DriverStep::FindNdk, DriverStep::FindZig, DriverStep::Warn, DriverStep::MakeWrappers, DriverStep::RunCargo, DriverStep::RemoveWrappers]
    );
    let fallback = ["-target=x86_64-linux-android", "-ndkfallback"];
    assert_eq!(
        run_of(&fallback, None),
        [DriverStep::FindNdk, DriverStep::Warn, DriverStep::MakeWrappers, DriverStep::RunCargo, DriverStep::RemoveWrappers]
    );
    assert_eq!(run_of(&android, Some(DriverStep::FindNdk)), [DriverStep::FindNdk]);
    assert_eq!(run_of(&android, Some(DriverStep::FindZig)), [DriverStep::FindNdk, DriverStep::FindZig]);
    assert_eq!(run_of(&plain, Some(DriverStep::MakeWrappers)), [DriverStep::FindZig, DriverStep::Warn, DriverStep::MakeWrappers]);
    assert_eq!(run_of(&plain, Some(DriverStep::RunCargo)), run_of(&plain, None));
    assert_eq!(next_step(&build(&plain), DriverStep::Accept, true), None);
}

#[test]
fn runtimes_have_names() {
    for runtime in [WindowsRuntime::Auto, WindowsRuntime::Zig, WindowsRuntime::Preserve] {
        assert_eq!(windows_runtime_named(runtime.name()), Some(runtime));
    }
    assert_eq!(windows_runtime_named("Zig"), None);
}

#[test]
fn numbers_are_read_back() {
    for number in [0, 7, 10, 1234567890, u64::MAX] {
        assert_eq!(write_number(number), number.to_string());
    }
    assert_eq!(parse_u32("4294967295"), Some(u32::MAX));
    assert_eq!(parse_u32("+007"), Some(7));
    for text in ["", "+", "-1", "1 ", "4294967296", "99999999999999999999", "1a", "++1"] {
        assert_eq!(parse_u32(text), None);
    }
    assert_eq!(parse_usize("10"), Some(10));
}

#[test]
fn texts_agree_with_the_standard_library() {
    let samples = ["", "a", "a-b--c", "-", " \t x \u{a0}", "\"q\"", "a\r\nb\n\nc\r", "\n", "é-É\u{3000}"];
    for text in samples {
        assert_eq!(split_at_char(text, '-'), text.split('-').collect::<Vec<_>>());
        assert_eq!(join(&split_at_char(text, '-'), "-"), text);
        assert_eq!(lines_of(text), text.lines().collect::<Vec<_>>());
        assert_eq!(trim(text), text.trim());
        assert_eq!(unquote(text), text.trim_matches('"'));
        assert_eq!(replace_char(text, '-', '_'), text.replace('-', "_"));
        assert_eq!(same_ignoring_case(text, "A"), text.eq_ignore_ascii_case("A"));
        assert_eq!(ends_with(text, "c"), text.ends_with("c"));
        assert_eq!(position_of(text, "b").is_some(), text.contains("b"));
    }
    assert_eq!(position_of("abcabc", "ca"), Some(2));
    assert_eq!(position_of("", ""), Some(0));
}
