use cargo_zirild::driver::{request_of, Request};
use cargo_zirild::cargo::{cargo_environment_variables, EnvironmentValue};
use cargo_zirild::exit::Exit;
use cargo_zirild::handoff::{read_wrapper_environment, FoundVariable};
use cargo_zirild::invocation::{
    response_rewrite, wrapper_command_line, wrapper_outcome, wrapper_setup, wrapper_trace,
    ResponseRewrite, Tool, WrapperArgument, WrapperEnvironment, WrapperSetup,
};
use cargo_zirild::wrapper::{
    compiler_optimization_flag, encode_wrapper_arguments, wrapper_arguments, wrapper_file_name,
    wrapper_mode, WrapperMode,
};

const MODES: [WrapperMode; 5] = [
    WrapperMode::Cc,
    WrapperMode::Cxx,
    WrapperMode::Linker,
    WrapperMode::Ar,
    WrapperMode::Dlltool,
];

fn environment(target: &str) -> WrapperEnvironment {
    WrapperEnvironment {
        zig_target: Some(target.to_string()),
        optimize: Some("ReleaseSafe".to_string()),
        optimize_chosen: false,
        ndk_fallback: false,
        has_zig: true,
        has_ndk_cc: false,
        has_ndk_cxx: false,
        has_ndk_ar: false,
        cflags: None,
        link_args: None,
        windows_runtime: None,
        trace: false,
    }
}

fn fallback() -> WrapperEnvironment {
    WrapperEnvironment {
        ndk_fallback: true,
        has_zig: false,
        has_ndk_cc: true,
        has_ndk_cxx: true,
        has_ndk_ar: true,
        cflags: Some("-fPIC\n\n-DA".to_string()),
        link_args: Some("-llog".to_string()),
        ..environment("x86_64-linux-android.24")
    }
}

fn line(setup: &WrapperSetup, arguments: &[&str]) -> Vec<String> {
    let given: Vec<String> = arguments.iter().map(|argument| argument.to_string()).collect();
    wrapper_command_line(setup, &given)
        .into_iter()
        .map(|argument| match argument {
            WrapperArgument::Text(text) => text,
            WrapperArgument::Original(position) => given[position].clone(),
        })
        .collect()
}

#[test]
fn maps_zig_policies_to_c_compiler_flags() {
    assert_eq!(compiler_optimization_flag("Debug").unwrap(), "-O0");
    assert_eq!(
        compiler_optimization_flag("ReleaseSafe").unwrap(),
        "-O2"
    );
    assert_eq!(
        compiler_optimization_flag("ReleaseFast").unwrap(),
        "-O3"
    );
    assert_eq!(
        compiler_optimization_flag("ReleaseSmall").unwrap(),
        "-Oz"
    );
}

#[test]
fn other_policies_have_no_flag() {
    assert_eq!(
        compiler_optimization_flag("-O3"),
        Err("invalid CARGO_ZIRILD_OPTIMIZE '-O3'".to_string())
    );
}

#[test]
fn wrappers_know_their_mode() {
    for mode in MODES {
        let name = wrapper_file_name(mode, false);
        assert_eq!(wrapper_mode(&name), Some(mode));
        assert_eq!(wrapper_file_name(mode, true), format!("{name}.exe"));
    }
    assert_eq!(wrapper_file_name(WrapperMode::Cxx, false), "cargo-zirild-cxx");
    assert_eq!(wrapper_mode("x86_64-w64-mingw32-dlltool"), Some(WrapperMode::Dlltool));
    assert_eq!(wrapper_mode("cargo-zirild"), None);
    assert_eq!(wrapper_mode("cc"), None);
}

#[test]
fn native_flags_are_read_back() {
    let flags = ["-fPIC".to_string(), "-DX=a b".to_string()];
    let encoded = encode_wrapper_arguments(&flags);
    assert_eq!(encoded, "-fPIC\n-DX=a b");
    assert_eq!(wrapper_arguments(&Some(encoded)), flags);
    assert_eq!(wrapper_arguments(&Some(encode_wrapper_arguments(&[]))), Vec::<String>::new());
    assert_eq!(wrapper_arguments(&Some("\na\n\n".to_string())), ["a"]);
    assert_eq!(wrapper_arguments(&None), Vec::<String>::new());
}

#[test]
fn zig_is_started_for_every_tool() {
    let environment = environment("x86_64-linux-gnu");
    let leading = |mode| wrapper_setup(mode, &environment).unwrap().leading;
    let compiler = ["-target", "x86_64-linux-gnu", "-O2"];
    assert_eq!(leading(WrapperMode::Cc)[0], "cc");
    assert_eq!(leading(WrapperMode::Cc)[1..4], compiler);
    assert_eq!(leading(WrapperMode::Cc)[4..], ["-fno-sanitize=undefined"]);
    assert_eq!(leading(WrapperMode::Cxx)[0], "c++");
    assert_eq!(leading(WrapperMode::Cxx)[1..4], compiler);
    assert_eq!(leading(WrapperMode::Linker), ["cc", "-target", "x86_64-linux-gnu", "-O2"]);
    assert_eq!(leading(WrapperMode::Ar), ["ar"]);
    assert_eq!(leading(WrapperMode::Dlltool), ["dlltool"]);
}

#[test]
fn ndk_tools_stand_in_for_zig() {
    let environment = fallback();
    let cc = wrapper_setup(WrapperMode::Cc, &environment).unwrap();
    assert_eq!(cc.tool, Tool::NdkCc);
    assert_eq!(line(&cc, &["--target=x", "a.c"]), ["-O2", "-fPIC", "-DA", "--target=x", "a.c"]);
    let linker = wrapper_setup(WrapperMode::Linker, &environment).unwrap();
    assert_eq!(linker.tool, Tool::NdkCc);
    assert_eq!(line(&linker, &["-nodefaultlibs", "a.o"]), ["-O2", "-llog", "a.o"]);
    assert_eq!(
        line(&linker, &["-Wl,--fix-cortex-a53-843419"]),
        ["-O2", "-llog", "-Wl,--fix-cortex-a53-843419"]
    );
    assert_eq!(wrapper_setup(WrapperMode::Cxx, &environment).unwrap().tool, Tool::NdkCxx);
    let ar = wrapper_setup(WrapperMode::Ar, &environment).unwrap();
    assert_eq!(ar.tool, Tool::NdkAr);
    assert_eq!(line(&ar, &["crs", "-Ox"]), ["crs", "-Ox"]);
}

#[test]
fn incomplete_environments_are_refused() {
    let refusal = |mode, environment: &WrapperEnvironment| {
        wrapper_setup(mode, environment).unwrap_err()
    };
    let good = || environment("x86_64-linux-gnu");
    assert_eq!(
        refusal(WrapperMode::Cc, &WrapperEnvironment { zig_target: None, ..good() }),
        "CARGO_ZIRILD_ZIG_TARGET is missing from wrapper environment"
    );
    assert_eq!(
        refusal(WrapperMode::Cc, &WrapperEnvironment { optimize: None, ..good() }),
        "CARGO_ZIRILD_OPTIMIZE is missing from wrapper environment"
    );
    assert_eq!(
        refusal(WrapperMode::Ar, &WrapperEnvironment { optimize: Some("x".into()), ..good() }),
        "invalid CARGO_ZIRILD_OPTIMIZE 'x'"
    );
    assert_eq!(
        refusal(WrapperMode::Ar, &WrapperEnvironment { has_zig: false, ..good() }),
        "CARGO_ZIRILD_ZIG is missing from wrapper environment"
    );
    assert_eq!(
        refusal(WrapperMode::Dlltool, &fallback()),
        "NDK fallback does not provide dlltool; Android builds must not request it"
    );
    for mode in [WrapperMode::Cc, WrapperMode::Cxx, WrapperMode::Linker, WrapperMode::Ar] {
        let environment = WrapperEnvironment {
            has_ndk_cc: false,
            has_ndk_cxx: false,
            has_ndk_ar: false,
            ..fallback()
        };
        assert_eq!(
            refusal(mode, &environment),
            "NDK fallback tool path is missing from wrapper environment"
        );
    }
}

#[test]
fn build_script_flags_decide_by_default() {
    let cc = wrapper_setup(WrapperMode::Cc, &environment("t")).unwrap();
    assert_eq!(
        line(&cc, &["-O0", "--target", "x86_64", "-c", "--target=y", "-fsanitize=undefined"]),
        ["cc", "-target", "t", "-O2", "-fno-sanitize=undefined", "-O0", "-c", "-fsanitize=undefined"]
    );
}

#[test]
fn chosen_mode_comes_last() {
    let chosen = WrapperEnvironment {
        optimize: Some("ReleaseSmall".into()),
        optimize_chosen: true,
        ..environment("t")
    };
    let cxx = wrapper_setup(WrapperMode::Cxx, &chosen).unwrap();
    assert_eq!(
        line(&cxx, &["-O0", "-c", "-Os", "-o", "x"]),
        ["c++", "-target", "t", "-fno-sanitize=undefined", "-c", "-o", "x", "-Oz"]
    );
    let linker = wrapper_setup(WrapperMode::Linker, &chosen).unwrap();
    assert_eq!(line(&linker, &["-O1"]), ["cc", "-target", "t", "-Oz", "-O1"]);
}

#[test]
fn dlltool_loses_its_prefix_for_temporary_files() {
    let dlltool = wrapper_setup(WrapperMode::Dlltool, &environment("t")).unwrap();
    assert_eq!(
        line(&dlltool, &["-d", "a.def", "--temp-prefix", "b", "-l", "c", "--temp-prefix"]),
        ["dlltool", "-d", "a.def", "-l", "c"]
    );
}

#[test]
fn windows_links_use_one_runtime() {
    let arguments = ["-lgcc", "-Wl,X.def", "-nodefaultlibs", "--disable-auto-image-base", "a.o"];
    let zig = wrapper_setup(WrapperMode::Linker, &environment("x86_64-windows-gnu")).unwrap();
    assert_eq!(
        line(&zig, &arguments),
        ["cc", "-target", "x86_64-windows-gnu", "-O2", "X.def", "a.o", "-lunwind"]
    );
    assert_eq!(response_rewrite(zig.rules), ResponseRewrite::Windows);
    let preserve = WrapperEnvironment {
        windows_runtime: Some("preserve".into()),
        ..environment("x86_64-windows-gnu")
    };
    let preserve = wrapper_setup(WrapperMode::Linker, &preserve).unwrap();
    assert_eq!(
        line(&preserve, &arguments)[4..],
        ["-lgcc", "X.def", "-nodefaultlibs", "a.o"]
    );
    let cc = wrapper_setup(WrapperMode::Cc, &environment("x86_64-windows-gnu")).unwrap();
    assert_eq!(line(&cc, &["-Wl,X.def"])[5..], ["-Wl,X.def"]);
}

#[test]
fn musl_links_leave_startup_to_zig() {
    let linker = wrapper_setup(WrapperMode::Linker, &environment("aarch64-linux-musl")).unwrap();
    assert_eq!(response_rewrite(linker.rules), ResponseRewrite::Musl);
    assert_eq!(
        line(
            &linker,
            &["-nostartfiles", "/r/self-contained/crt1.o", "main.o", "-Wl,--fix-cortex-a53-843419"]
        )[4..],
        ["main.o"]
    );
    assert_eq!(
        line(&linker, &["w/self-contained/main.o", "w/self-contained/crtn.o"])[4..],
        ["w/self-contained/main.o"]
    );
}

#[test]
fn plain_links_keep_everything_else() {
    let linker = wrapper_setup(WrapperMode::Linker, &environment("x86_64-linux-gnu")).unwrap();
    assert_eq!(response_rewrite(linker.rules), ResponseRewrite::Plain);
    let cc = wrapper_setup(WrapperMode::Cc, &environment("x86_64-linux-musl")).unwrap();
    assert_eq!(response_rewrite(cc.rules), ResponseRewrite::Nothing);
    let ndk = wrapper_setup(WrapperMode::Linker, &fallback()).unwrap();
    assert_eq!(response_rewrite(ndk.rules), ResponseRewrite::Nothing);
    assert_eq!(
        line(
            &linker,
            &["-nodefaultlibs", "-nostartfiles", "-lgcc", "-Wl,x.def", "-Wl,--fix-cortex-a53-843419"]
        )[4..],
        ["-nostartfiles", "-lgcc", "-Wl,x.def"]
    );
}

#[test]
fn outcomes_name_the_tool() {
    assert_eq!(wrapper_outcome(WrapperMode::Cc, false, &Exit::Succeeded), Ok(()));
    assert_eq!(
        wrapper_outcome(WrapperMode::Cc, true, &Exit::NotStarted("gone".into())),
        Err("failed to start NDK LLVM: gone".to_string())
    );
    assert_eq!(
        wrapper_outcome(WrapperMode::Linker, false, &Exit::Failed("exit status: 1".into())),
        Err("Zig Linker failed with exit status: 1".to_string())
    );
    for mode in MODES {
        assert_eq!(
            wrapper_outcome(mode, true, &Exit::Failed("x".into())),
            Err(format!("NDK LLVM {mode:?} failed with x"))
        );
    }
}

#[test]
fn trace_counts_arguments() {
    assert_eq!(
        wrapper_trace(WrapperMode::Ar, false, 120),
        Some("cargo-zirild trace: invoking Zig in Ar mode with 120 arguments".to_string())
    );
    assert_eq!(
        wrapper_trace(WrapperMode::Cc, true, 0),
        Some("cargo-zirild trace: invoking NDK LLVM in Cc mode with 0 arguments".to_string())
    );
    assert_eq!(wrapper_trace(WrapperMode::Dlltool, false, 1), None);
}

fn found_by_wrappers(arguments: &[&str]) -> WrapperEnvironment {
    let arguments = arguments.iter().map(|argument| argument.to_string()).collect();
    let options = match request_of(arguments) {
        Ok(Request::Build(options)) => options,
        other => panic!("{other:?}"),
    };
    let found: Vec<FoundVariable> = cargo_environment_variables(&options)
        .into_iter()
        .map(|variable| FoundVariable {
            name: variable.name,
            value: match variable.value {
                EnvironmentValue::Text(text) => text,
                _ => "/some/path".to_string(),
            },
            unicode: true,
        })
        .collect();
    read_wrapper_environment(&found)
}

#[test]
fn wrappers_find_the_build() {
    let found = found_by_wrappers(&[
        "-target=x86_64-linux-android",
        "-android-api=24",
        "-android-cflag=-fPIC",
        "-android-cflag=-DA",
        "-android-link-arg=-llog",
        "-ndkfallback",
        "--zig-opt=Debug",
        "--trace",
    ]);
    assert_eq!(found.zig_target.as_deref(), Some("x86_64-linux-android.24"));
    assert_eq!(found.optimize.as_deref(), Some("Debug"));
    assert!(found.optimize_chosen && found.ndk_fallback && found.trace);
    assert!(!found.has_zig && found.has_ndk_cc && found.has_ndk_cxx && found.has_ndk_ar);
    assert_eq!(wrapper_arguments(&found.cflags), ["-fPIC", "-DA"]);
    assert_eq!(wrapper_arguments(&found.link_args), ["-llog"]);
    assert_eq!(found.windows_runtime, None);
    assert!(wrapper_setup(WrapperMode::Cc, &found).is_ok());
    assert!(wrapper_setup(WrapperMode::Dlltool, &found).is_err());

    let found = found_by_wrappers(&["-target=x86_64-windows-gnu", "--windows-runtime=preserve"]);
    assert_eq!(found.windows_runtime.as_deref(), Some("preserve"));
    assert!(!found.optimize_chosen && !found.ndk_fallback && !found.trace && found.has_zig);
    assert_eq!((found.cflags.as_ref(), found.link_args.as_ref()), (None, None));
    for mode in MODES {
        assert!(wrapper_setup(mode, &found).is_ok());
    }
}

#[test]
fn only_unicode_flags_are_read() {
    let variable = |name: &str, unicode| FoundVariable {
        name: name.to_string(),
        value: "x".to_string(),
        unicode,
    };
    let found = read_wrapper_environment(&[
        variable("CARGO_ZIRILD_ANDROID_CFLAGS", false),
        variable("CARGO_ZIRILD_ANDROID_LINK_ARGS", true),
        variable("CARGO_ZIRILD_ZIG_TARGET", false),
    ]);
    assert_eq!(found.cflags, None);
    assert_eq!(found.link_args.as_deref(), Some("x"));
    assert_eq!(found.zig_target.as_deref(), Some("x"));
    assert_eq!(found.optimize, None);
}
