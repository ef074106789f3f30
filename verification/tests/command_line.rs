use cargo_zirild::arguments::{
    cargo_command_name, cargo_option_takes_value, parse_args, BuildOptions,
};
use cargo_zirild::driver::{request_of, Request, USAGE, VERSION};
use cargo_zirild::options::{validate_optimize, WindowsRuntime};

fn args(list: &[&str]) -> Vec<String> {
    list.iter().map(|text| text.to_string()).collect()
}

fn parsed(list: &[&str]) -> BuildOptions {
    parse_args(args(list)).unwrap()
}

fn refusal(list: &[&str]) -> String {
    parse_args(args(list)).unwrap_err()
}

#[test]
fn derives_optimization_modes() {
    let dev = parse_args(vec!["-target=x86_64-linux-musl".into()]).unwrap();
    let release =
        parse_args(vec!["-target=x86_64-linux-musl".into(), "--release".into()]).unwrap();
    let small = parse_args(vec!["-target=x86_64-linux-musl".into(), "-Z".into()]).unwrap();
    assert_eq!(dev.optimize, "ReleaseSafe");
    assert_eq!(release.optimize, "ReleaseFast");
    assert_eq!(small.optimize, "ReleaseSmall");
}

#[test]
fn explicit_optimization_wins() {
    let options = parse_args(vec![
        "-target=x86_64-linux-musl".into(),
        "--release".into(),
        "-ZigOptimize=Debug".into(),
    ])
    .unwrap();
    assert_eq!(options.optimize, "Debug");
}

#[test]
fn accepts_rust_linux_triples_for_zig() {
    let options = parse_args(vec!["-target=x86_64-unknown-linux-gnu".into()]).unwrap();
    assert_eq!(options.cargo_target, "x86_64-unknown-linux-gnu");
    assert_eq!(options.zig_target, "x86_64-linux-gnu");
}

#[test]
fn expands_short_windows_target_to_msvc() {
    let options = parse_args(vec!["-target=x86_64-pc-windows".into()]).unwrap();
    assert_eq!(options.cargo_target, "x86_64-pc-windows-msvc");
    assert_eq!(options.zig_target, "x86_64-windows-msvc");
}

#[test]
fn zigpatch_overrides_are_parsed() {
    let options = parse_args(vec![
        "-target=x86_64-linux-musl".into(),
        "-zigpatch=C:\\tools\\zig\\zig.exe".into(),
    ])
    .unwrap();
    assert_eq!(
        options.zig_patch,
        Some(String::from("C:\\tools\\zig\\zig.exe"))
    );
}

#[test]
fn cargo_subcommand_name_is_not_forwarded_to_build() {
    let options =
        parse_args(vec!["-target=x86_64-linux-musl".into(), "zirild".into()]).unwrap();
    assert!(options.cargo_args.is_empty());
    assert_eq!(options.cargo_command, "build");
    assert_eq!(options.zig_target, "x86_64-linux-musl");
}

#[test]
fn selects_cargo_run_after_zirild_options() {
    let options = parse_args(vec![
        "-target=x86_64-pc-windows-msvc".into(),
        "run".into(),
        "--release".into(),
    ])
    .unwrap();
    assert_eq!(options.cargo_command, "run");
    assert_eq!(options.cargo_args, vec![String::from("--release")]);
    assert_eq!(options.optimize, "ReleaseFast");
}

#[test]
fn preserves_separator_and_run_arguments() {
    let options = parse_args(vec![
        "-target=x86_64-pc-windows-msvc".into(),
        "run".into(),
        "--".into(),
        "--help".into(),
        "run".into(),
    ])
    .unwrap();
    assert_eq!(options.cargo_command, "run");
    assert_eq!(
        options.cargo_args,
        vec![
            String::from("--"),
            String::from("--help"),
            String::from("run")
        ]
    );
}

#[test]
fn does_not_treat_cargo_option_value_as_command() {
    let options = parse_args(vec![
        "-target=x86_64-pc-windows-msvc".into(),
        "--bin".into(),
        "run".into(),
    ])
    .unwrap();
    assert_eq!(options.cargo_command, "build");
    assert_eq!(
        options.cargo_args,
        vec![String::from("--bin"), String::from("run")]
    );
}

#[test]
fn parses_android_ndk_and_toolchain_options_without_forwarding_to_cargo() {
    let options = parse_args(vec![
        "-target=x86_64-linux-android".into(),
        "-nindx=1".into(),
        "-android-api=24".into(),
        "-DANDROID_ABI=x86_64".into(),
        "-DANDROID_STL=c++_shared".into(),
        "-android-cflag=-fPIC".into(),
        "-android-link-arg=-Wl,--build-id".into(),
        "-ndkfallback".into(),
    ])
    .unwrap();
    assert_eq!(options.zig_target, "x86_64-linux-android.24");
    assert_eq!(options.android.ndk_index, Some(1));
    assert_eq!(options.android.api_level, Some(24));
    assert_eq!(options.android.abi.as_deref(), Some("x86_64"));
    assert_eq!(options.android.stl.as_deref(), Some("c++_shared"));
    assert_eq!(options.android.cflags, vec!["-fPIC"]);
    assert_eq!(options.android.link_args, vec!["-Wl,--build-id"]);
    assert!(options.android.ndk_fallback);
    assert!(options.cargo_args.is_empty());
}

#[test]
fn rejects_conflicting_ndk_selectors_and_android_abi() {
    assert!(
        parse_args(vec![
            "-target=x86_64-linux-android".into(),
            "-ndkversion=30.0.14904198".into(),
            "-nindx=0".into(),
        ])
        .is_err()
    );
    assert!(
        parse_args(vec![
            "-target=x86_64-linux-android".into(),
            "-android-abi=arm64-v8a".into(),
        ])
        .is_err()
    );
}

#[test]
fn version_flags_report_the_package_version() {
    for list in [&["--version"][..], &["-V"], &["zirild", "--version"]] {
        assert!(matches!(request_of(args(list)), Ok(Request::Version)));
    }
    assert_eq!(VERSION, "cargo-zirild 0.1.9");
}

#[test]
fn help_lists_every_supported_cargo_command_and_option() {
    assert!(matches!(request_of(args(&["--help"])), Ok(Request::Help)));
    let commands = USAGE
        .lines()
        .find(|line| line.trim_start().starts_with("build (default)"))
        .expect("help should list the Cargo commands");
    for command in [
        "build", "check", "run", "test", "bench", "rustc", "clippy", "doc", "asm",
    ] {
        assert!(
            commands.contains(command),
            "help omits {command}: {commands}"
        );
        assert_eq!(cargo_command_name(command), Some(command));
    }

    for option in ["-target=", "--zig-path=", "--version", "--windows-runtime="] {
        assert!(USAGE.contains(option), "help does not mention {option}");
    }
}

#[test]
fn a_missing_target_is_rejected() {
    let message = request_of(args(&["zirild"])).unwrap_err();
    assert!(message.contains("missing required -target="));
}

#[test]
fn a_separate_target_argument_is_rejected() {
    for list in [
        vec!["zirild", "-target", "x86_64-linux-musl"],
        vec!["zirild", "--target", "x86_64-linux-musl"],
        vec![
            "zirild",
            "-target=x86_64-linux-musl",
            "build",
            "--target",
            "x86_64-linux-musl",
        ],
    ] {
        assert!(request_of(args(&list)).is_err(), "{list:?} should be rejected");
    }
}

#[test]
fn scope_limited_options_are_rejected_outside_their_target() {
    let windows_runtime = request_of(args(&[
        "zirild",
        "-target=x86_64-unknown-linux-gnu",
        "--windows-runtime=zig",
    ]))
    .unwrap_err();
    assert!(windows_runtime.contains("only valid for a Windows GNU -target"));

    let android = request_of(args(&[
        "zirild",
        "-target=x86_64-unknown-linux-gnu",
        "-android-api=24",
    ]))
    .unwrap_err();
    assert!(android.contains("Android-only options require an Android"));
}

#[test]
fn an_invalid_optimization_mode_is_rejected() {
    let message = request_of(args(&["zirild", "-target=x86_64-linux-musl", "--zig-opt=turbo"]))
        .unwrap_err();
    assert!(message.contains("invalid --zig-opt 'turbo'"));
}

#[test]
fn every_refusal_has_its_message() {
    assert_eq!(refusal(&[]), "missing required -target=<zig-target>");
    assert_eq!(refusal(&["-target="]), "-target cannot be empty");
    assert_eq!(
        refusal(&["-target=x", "-ZigOptimize=fast"]),
        "invalid -ZigOptimize 'fast'; use Debug, ReleaseSafe, ReleaseFast, or ReleaseSmall"
    );
    for name in [
        "-zigpatch",
        "--zig-path",
        "--ndk-path",
        "-ndkversion",
        "-android-abi",
        "-DANDROID_ABI",
        "-android-stl",
        "-DANDROID_STL",
        "-android-cflag",
        "-android-link-arg",
    ] {
        assert_eq!(
            refusal(&["-target=x", &format!("{name}=")]),
            format!("{name} cannot be empty")
        );
    }
    assert_eq!(
        refusal(&["-target=x", "-nindx=-1"]),
        "invalid -nindx '-1'; use a non-negative integer (0 = newest)"
    );
    assert_eq!(
        refusal(&["-target=x", "-android-api=android-x"]),
        "invalid Android API level 'x'"
    );
    assert_eq!(
        refusal(&["-target=x", "-android-api=4294967296"]),
        "invalid Android API level '4294967296'"
    );
    assert_eq!(
        refusal(&["-target=x", "-android-api=0"]),
        "Android API level must be greater than zero"
    );
    assert_eq!(
        refusal(&["-target=x", "-android-api=24", "-DANDROID_PLATFORM=android-21"]),
        "conflicting Android API levels: android-24 and android-21"
    );
    assert_eq!(
        refusal(&["-target=x86_64-linux-android", "-ndkversion=1", "-nindx=0"]),
        "use either -ndkversion or -nindx, not both"
    );
    assert_eq!(
        refusal(&["-target=x86_64-linux-android", "-android-abi=x86"]),
        "Android ABI 'x86' does not match target x86_64-linux-android; use x86_64"
    );
    assert_eq!(
        refusal(&["-target=x", "--windows-runtime=mingw"]),
        "invalid --windows-runtime 'mingw'; use auto, zig, or preserve"
    );
    assert_eq!(
        refusal(&["-target=x", "-target"]),
        "use -target=<zig-target>, not a separate Cargo --target"
    );
}

#[test]
fn positions_point_at_the_forwarded_arguments() {
    let list = ["zirild", "-target=x86_64-linux-gnu", "test", "--release", "-Z", "--features", "-Z", "--", "-nindx=3"];
    let options = parsed(&list);
    assert_eq!(options.cargo_command, "test");
    assert_eq!(options.cargo_args, ["--release", "--features", "-Z", "--", "-nindx=3"]);
    assert_eq!(options.cargo_positions, [3, 5, 6, 7, 8]);
    for (argument, position) in options.cargo_args.iter().zip(&options.cargo_positions) {
        assert_eq!(argument, list[*position]);
    }
    let without_name = parsed(&list[1..]);
    assert_eq!(without_name.cargo_args, options.cargo_args);
    assert_eq!(without_name.cargo_positions, [2, 4, 5, 6, 7]);
}

#[test]
fn commands_are_not_guessed_behind_cargo_arguments() {
    let options = parsed(&["-target=x86_64-linux-gnu", "--locked", "run"]);
    assert_eq!(options.cargo_command, "build");
    assert_eq!(options.cargo_args, ["--locked", "run"]);
    let options = parsed(&["-target=x86_64-linux-gnu", "--release", "run"]);
    assert_eq!(options.cargo_command, "run");
    let options = parsed(&["-target=x86_64-linux-gnu", "run", "zirild", "check"]);
    assert_eq!(options.cargo_command, "run");
    assert_eq!(options.cargo_args, ["zirild", "check"]);
}

#[test]
fn new_spellings_mean_the_same() {
    let options = parsed(&[
        "--target=x86_64-linux-android",
        "--zig-opt=ReleaseFast",
        "--zig-path=/zig",
        "--ndk-path=/ndk",
        "--trace",
        "--zig-release-small",
    ]);
    assert_eq!(options.cargo_target, "x86_64-linux-android");
    assert_eq!(options.optimize, "ReleaseFast");
    assert!(options.optimize_chosen);
    assert_eq!(options.zig_patch.as_deref(), Some("/zig"));
    assert_eq!(options.android.ndk_path.as_deref(), Some("/ndk"));
    assert!(options.trace);
    let small = parsed(&["-target=x", "--release", "--zig-release-small"]);
    assert_eq!(small.optimize, "ReleaseSmall");
    assert!(small.optimize_chosen);
    assert!(!parsed(&["-target=x", "--release"]).optimize_chosen);
}

#[test]
fn last_setting_counts_and_flags_add_up() {
    let options = parsed(&[
        "-target=a",
        "-target=x86_64-linux-gnu",
        "-android-cflag=-DA=1",
        "-android-cflag=-DB",
        "-android-api=android-24",
        "-DANDROID_PLATFORM=24",
        "-nindx=+2",
    ]);
    assert_eq!(options.zig_target, "x86_64-linux-gnu");
    assert_eq!(options.android.cflags, ["-DA=1", "-DB"]);
    assert_eq!(options.android.api_level, Some(24));
    assert_eq!(options.android.ndk_index, Some(2));
}

#[test]
fn assembly_takes_a_target_of_its_own() {
    let options = parsed(&["-target=x86_64-linux-gnu", "asm", "--target", "thumb", "--target=other", "f"]);
    assert_eq!(options.cargo_command, "asm");
    assert_eq!(options.zig_target, "x86_64-linux-gnu");
    assert_eq!(options.cargo_args, ["--target", "thumb", "--target=other", "f"]);
}

#[test]
fn windows_runtime_is_accepted_for_windows_gnu() {
    let request = request_of(args(&["-target=x86_64-windows-gnu", "--windows-runtime=preserve"]));
    match request {
        Ok(Request::Build(options)) => {
            assert_eq!(options.windows_runtime, Some(WindowsRuntime::Preserve));
            assert_eq!(options.windows_runtime.unwrap().name(), "preserve");
        }
        _ => panic!("should be accepted"),
    }
}

#[test]
fn help_behind_the_separator_is_not_asked_for() {
    let request = request_of(args(&["-target=x86_64-linux-gnu", "run", "--", "--help", "-V"]));
    assert!(matches!(request, Ok(Request::Build(_))));
    assert!(matches!(request_of(args(&["-V", "-h"])), Ok(Request::Help)));
}

#[test]
fn version_is_read_as_an_argument_only() {
    let forwarded = |list: &[&str]| match request_of(args(list)) {
        Ok(Request::Build(options)) => options.cargo_args,
        other => panic!("{other:?}"),
    };
    assert_eq!(forwarded(&["-target=x86_64-linux-musl", "--bin", "-V"]), ["--bin", "-V"]);
    assert_eq!(
        forwarded(&["zirild", "-target=x86_64-linux-musl", "-p", "--version"]),
        ["-p", "--version"]
    );
    assert_eq!(forwarded(&["-target=x86_64-linux-musl", "--", "-V"]), ["--", "-V"]);
    for list in [&["-target=x", "-V"][..], &["--bin", "a", "--version"], &["zirild", "-V", "-nindx=x"]] {
        assert!(matches!(request_of(args(list)), Ok(Request::Version)));
    }
    assert!(request_of(args(&["-nindx=x", "-V"])).is_err());
}

#[test]
fn modes_are_checked_by_name() {
    assert_eq!(validate_optimize("--zig-opt", "Debug"), Ok("Debug".to_string()));
    assert!(validate_optimize("--zig-opt", "debug").is_err());
}

#[test]
fn options_with_values_are_known() {
    assert!(cargo_option_takes_value("--bin"));
    assert!(cargo_option_takes_value("-p"));
    assert!(!cargo_option_takes_value("--locked"));
    assert_eq!(cargo_command_name("fmt"), None);
}
