use std::path::PathBuf;

use cargo_zirild::ndk::{
    android_tools, check_ndk_sysroot, check_ndk_tools, ndk_host_tag, ndk_prebuilt_directories,
    ndk_source, ndk_variables, ndk_version_key, ndk_version_name, select_ndk_candidate,
    select_ndk_root, DirectoryName, Host, NdkCandidate, NdkHome, NdkRoot, NdkSource, ToolFile,
};
use cargo_zirild::options::{set_android_api_level, validate_android_options, AndroidOptions};

const LINUX: Host = Host { windows: false, macos: false, aarch64: false };
const WINDOWS: Host = Host { windows: true, macos: false, aarch64: false };

fn candidate(name: &str) -> NdkCandidate<PathBuf> {
    NdkCandidate { path: PathBuf::from(name), name: DirectoryName::Unicode(name.to_string()) }
}

fn candidates(names: &[&str]) -> Vec<NdkCandidate<PathBuf>> {
    names.iter().map(|name| candidate(name)).collect()
}

fn selected(list: Vec<NdkCandidate<PathBuf>>, options: &AndroidOptions) -> Option<PathBuf> {
    select_ndk_candidate(list, options).map(|candidate| candidate.path)
}

#[test]
fn orders_ndk_version_directories_numerically() {
    assert!(ndk_version_key("27.2.12479018") < ndk_version_key("30.0.14904198"));
}

#[test]
fn selects_ndk_versions_newest_first_or_by_exact_name() {
    let names = ["27.2.12479018", "30.0.14904198", "26.3.11579264"];
    assert_eq!(
        selected(candidates(&names), &AndroidOptions::default()),
        Some(PathBuf::from("30.0.14904198"))
    );
    let indexed = AndroidOptions {
        ndk_index: Some(1),
        ..AndroidOptions::default()
    };
    assert_eq!(
        selected(candidates(&names), &indexed),
        Some(PathBuf::from("27.2.12479018"))
    );
    let exact = AndroidOptions {
        ndk_version: Some("26.3.11579264".into()),
        ..AndroidOptions::default()
    };
    assert_eq!(
        selected(candidates(&names), &exact),
        Some(PathBuf::from("26.3.11579264"))
    );
}

#[test]
fn version_keys_hold_numbers() {
    assert_eq!(ndk_version_key("27.2.12479018"), [27, 2, 12479018]);
    assert_eq!(ndk_version_key(""), [0]);
    assert_eq!(ndk_version_key("r9.+5.4294967296.-1"), [0, 5, 0, 0]);
}

#[test]
fn equal_versions_keep_their_order_and_longer_ones_are_newer() {
    let list = vec![
        NdkCandidate { path: 0, name: DirectoryName::Unicode("9.0".into()) },
        NdkCandidate { path: 1, name: DirectoryName::Unicode("10".into()) },
        NdkCandidate { path: 2, name: DirectoryName::Unicode("09.00".into()) },
        NdkCandidate { path: 3, name: DirectoryName::Unicode("10.0".into()) },
        NdkCandidate { path: 4, name: DirectoryName::Lossy("99".into()) },
        NdkCandidate { path: 5, name: DirectoryName::Missing },
    ];
    let mut order = Vec::new();
    for index in 0..7 {
        let options = AndroidOptions { ndk_index: Some(index), ..AndroidOptions::default() };
        let copy = list
            .iter()
            .map(|entry| NdkCandidate {
                path: entry.path,
                name: match &entry.name {
                    DirectoryName::Unicode(name) => DirectoryName::Unicode(name.clone()),
                    DirectoryName::Lossy(name) => DirectoryName::Lossy(name.clone()),
                    DirectoryName::Missing => DirectoryName::Missing,
                },
            })
            .collect();
        order.push(select_ndk_candidate(copy, &options).map(|entry| entry.path));
    }
    assert_eq!(order, [Some(3), Some(1), Some(0), Some(2), Some(4), Some(5), None]);
    let exact = AndroidOptions { ndk_version: Some("99".into()), ..AndroidOptions::default() };
    assert_eq!(select_ndk_candidate(list, &exact).map(|entry| entry.path), Some(4));
}

#[test]
fn no_candidate_is_selected_from_none() {
    assert_eq!(selected(Vec::new(), &AndroidOptions::default()), None);
}

#[test]
fn home_of_ndks_gives_one_or_a_message() {
    let none = AndroidOptions::default();
    let version = AndroidOptions { ndk_version: Some("9".into()), ..AndroidOptions::default() };
    let index = AndroidOptions { ndk_index: Some(2), ..AndroidOptions::default() };

    let root = select_ndk_root(NdkHome::<PathBuf>::Installation, "Ndk_home", "/ndk", &none);
    assert!(matches!(root, Ok(NdkRoot::Home)));
    assert_eq!(
        select_ndk_root(NdkHome::<PathBuf>::Installation, "Ndk_home", "/ndk", &index).unwrap_err(),
        "Ndk_home '/ndk' already points to one NDK installation; remove -ndkversion/-nindx"
    );
    assert_eq!(
        select_ndk_root(NdkHome::<PathBuf>::Absent, "Ndk_home", "/ndk", &none).unwrap_err(),
        "Ndk_home path does not exist: /ndk"
    );
    assert_eq!(
        select_ndk_root(NdkHome::<PathBuf>::Unreadable("denied".into()), "Ndk_home", "/ndk", &none)
            .unwrap_err(),
        "cannot read Ndk_home directory '/ndk': denied"
    );
    let found = NdkHome::Versions(candidates(&["8", "9"]));
    match select_ndk_root(found, "Ndk_home", "/ndk", &none) {
        Ok(NdkRoot::Version(path)) => assert_eq!(path, PathBuf::from("9")),
        other => panic!("{other:?}"),
    }
    assert_eq!(
        select_ndk_root(NdkHome::Versions(candidates(&["7", "8"])), "Ndk_home", "/ndk", &version)
            .unwrap_err(),
        "NDK version '9' was not found below Ndk_home '/ndk'; available versions: 7, 8"
    );
    assert_eq!(
        select_ndk_root(NdkHome::Versions(candidates(&["7", "8"])), "--ndk-path", "/ndk", &index)
            .unwrap_err(),
        "NDK index 2 is out of range below --ndk-path '/ndk'; newest-first versions: 8, 7"
    );
    assert_eq!(
        select_ndk_root(NdkHome::Versions(candidates(&[])), "Ndk_home", "/ndk", &none).unwrap_err(),
        "Ndk_home '/ndk' is not an NDK and contains no NDK version with toolchains/llvm/prebuilt"
    );
}

#[test]
fn refused_index_lists_what_indices_select() {
    let names = ["9.0", "10.1", "r", "10.0", "2"];
    let index = |index| AndroidOptions { ndk_index: Some(index), ..AndroidOptions::default() };
    let message =
        select_ndk_root(NdkHome::Versions(candidates(&names)), "Ndk_home", "/ndk", &index(5))
            .unwrap_err();
    assert_eq!(
        message,
        "NDK index 5 is out of range below Ndk_home '/ndk'; newest-first versions: 10.1, 10.0, 9.0, 2, r"
    );
    let listed: Vec<&str> = message.split(": ").last().unwrap().split(", ").collect();
    for (place, name) in listed.iter().enumerate() {
        assert_eq!(selected(candidates(&names), &index(place)), Some(PathBuf::from(name)));
    }
    let version = AndroidOptions { ndk_version: Some("3".into()), ..AndroidOptions::default() };
    assert_eq!(
        select_ndk_root(NdkHome::Versions(candidates(&names)), "Ndk_home", "/ndk", &version)
            .unwrap_err(),
        "NDK version '3' was not found below Ndk_home '/ndk'; available versions: 9.0, 10.1, r, 10.0, 2"
    );
}

#[test]
fn option_goes_before_environment() {
    let none = AndroidOptions::default();
    let path = AndroidOptions { ndk_path: Some("/ndk".into()), ..AndroidOptions::default() };
    let set = |list: &[&str]| list.iter().map(|name| name.to_string()).collect::<Vec<_>>();
    let name = |options: &AndroidOptions, list: &[&str]| {
        ndk_source(options, &set(list)).map(|source| source.name().to_string())
    };
    assert_eq!(ndk_variables(), ["Ndk_home", "ANDROID_NDK_HOME", "ANDROID_NDK_ROOT"]);
    assert!(matches!(ndk_source(&path, &set(&["Ndk_home"])), Ok(NdkSource::Option)));
    assert_eq!(name(&path, &[]), Ok("--ndk-path".to_string()));
    assert_eq!(name(&none, &["ANDROID_NDK_ROOT", "Ndk_home"]), Ok("Ndk_home".to_string()));
    assert_eq!(
        name(&none, &["ANDROID_NDK_ROOT", "ANDROID_NDK_HOME"]),
        Ok("ANDROID_NDK_HOME".to_string())
    );
    assert_eq!(name(&none, &["ANDROID_NDK_ROOT"]), Ok("ANDROID_NDK_ROOT".to_string()));
    for list in [&[][..], &["PATH"]] {
        assert_eq!(
            name(&none, list),
            Err("Ndk_home is not set; set it to an Android NDK installation or Android SDK ndk directory".to_string())
        );
    }
}

#[test]
fn hosts_have_their_tags() {
    assert_eq!(ndk_host_tag(LINUX), "linux-x86_64");
    assert_eq!(ndk_host_tag(WINDOWS), "windows-x86_64");
    assert_eq!(ndk_host_tag(Host { macos: true, ..LINUX }), "darwin-x86_64");
    assert_eq!(ndk_host_tag(Host { macos: true, aarch64: true, ..LINUX }), "darwin-arm64");
    assert_eq!(ndk_prebuilt_directories(), ["toolchains", "llvm", "prebuilt"]);
}

#[test]
fn tools_are_named_after_target_and_api_level() {
    let tools = android_tools("armv7-linux-androideabi", None, LINUX).unwrap();
    assert_eq!(tools.cc, "armv7a-linux-androideabi16-clang");
    assert_eq!(tools.cxx, "armv7a-linux-androideabi16-clang++");
    assert_eq!(tools.ar, "llvm-ar");
    let tools = android_tools("x86_64-linux-android", Some(24), WINDOWS).unwrap();
    assert_eq!(tools.cc, "x86_64-linux-android24-clang.cmd");
    assert_eq!(tools.cxx, "x86_64-linux-android24-clang++.cmd");
    assert_eq!(tools.ar, "llvm-ar.exe");
    assert_eq!(
        android_tools("x86_64-unknown-linux-gnu", None, LINUX).unwrap_err(),
        "unsupported Android Rust target: x86_64-unknown-linux-gnu"
    );
}

#[test]
fn missing_parts_of_an_ndk_are_reported() {
    assert!(check_ndk_sysroot("/ndk", "/ndk/sysroot", LINUX, true).is_ok());
    assert_eq!(
        check_ndk_sysroot("/ndk", "/ndk/sysroot", LINUX, false).unwrap_err(),
        "Android NDK '/ndk' has no sysroot for host 'linux-x86_64': /ndk/sysroot"
    );
    let file = |path: &str, is_file| ToolFile { path: path.into(), is_file };
    let zig = AndroidOptions::default();
    let fallback = AndroidOptions { ndk_fallback: true, ..AndroidOptions::default() };
    let check = |options: &AndroidOptions, cc, cxx, ar| {
        check_ndk_tools(options, "/ndk", "t", &file("cc", cc), &file("cxx", cxx), &file("ar", ar))
    };
    assert!(check(&zig, false, false, false).is_ok());
    assert!(check(&fallback, true, true, true).is_ok());
    assert_eq!(
        check(&fallback, false, false, false).unwrap_err(),
        "Android NDK '/ndk' does not provide the C compiler needed for t: cc"
    );
    assert_eq!(
        check(&fallback, true, false, false).unwrap_err(),
        "Android NDK '/ndk' does not provide the C++ compiler needed for t: cxx"
    );
    assert_eq!(
        check(&fallback, true, true, false).unwrap_err(),
        "Android NDK '/ndk' does not provide the archiver needed for t: ar"
    );
}

#[test]
fn version_is_named_by_the_directory() {
    assert_eq!(ndk_version_name(&DirectoryName::Unicode("27.1".into())), "27.1");
    assert_eq!(ndk_version_name(&DirectoryName::Lossy("27.1".into())), "direct");
    assert_eq!(ndk_version_name(&DirectoryName::Missing), "direct");
}

#[test]
fn android_options_are_checked() {
    let mut options = AndroidOptions::default();
    assert!(!options.is_configured());
    assert_eq!(set_android_api_level(&mut options, "android-24"), Ok(()));
    assert_eq!(options.api_level, Some(24));
    assert!(options.is_configured());
    assert!(set_android_api_level(&mut options, "25").is_err());
    assert_eq!(options.api_level, Some(24));
    options.abi = Some("x86".into());
    assert!(validate_android_options(&options, "i686-linux-android").is_ok());
    assert!(validate_android_options(&options, "x86_64-linux-android").is_err());
    assert!(validate_android_options(&options, "x86_64-unknown-linux-gnu").is_ok());
}
