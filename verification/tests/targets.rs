use cargo_zirild::target::{
    android_abi_for_target, android_compiler_prefix, android_musl_target, cargo_target_for,
    is_android_target, is_msvc_target, is_windows_gnu_target, is_windows_zig_target,
    zig_target_for,
};

#[test]
fn maps_common_zig_triples_to_cargo_triples() {
    assert_eq!(
        cargo_target_for("aarch64-linux-musl"),
        "aarch64-unknown-linux-musl"
    );
    assert_eq!(
        cargo_target_for("x86_64-windows-gnu"),
        "x86_64-pc-windows-gnu"
    );
    assert_eq!(
        cargo_target_for("x86_64-linux-android"),
        "x86_64-linux-android"
    );
    assert_eq!(
        cargo_target_for("x86_64-pc-windows"),
        "x86_64-pc-windows-msvc"
    );
}

#[test]
fn removes_android_api_level_from_musl_compatibility_suggestion() {
    assert_eq!(
        android_musl_target("x86_64-linux-android.24"),
        "x86_64-linux-musl"
    );
}

#[test]
fn maps_arm_android_and_macos_to_rust_triples() {
    assert_eq!(cargo_target_for("arm-linux-android"), "armv7-linux-androideabi");
    assert_eq!(cargo_target_for("armv7-linux-android"), "armv7-linux-androideabi");
    assert_eq!(cargo_target_for("aarch64-macos-none"), "aarch64-apple-darwin");
    assert_eq!(cargo_target_for("wasm32-unknown-unknown"), "wasm32-unknown-unknown");
    assert_eq!(cargo_target_for("riscv64"), "riscv64");
    assert_eq!(cargo_target_for(""), "");
}

#[test]
fn preserves_rust_triples() {
    for triple in [
        "x86_64-unknown-linux-gnu",
        "x86_64-pc-windows-msvc",
        "aarch64-apple-darwin",
        "armv7-linux-androideabi",
        "i686-linux-android",
    ] {
        assert_eq!(cargo_target_for(triple), triple);
        assert_eq!(cargo_target_for(&cargo_target_for(triple)), triple);
    }
}

#[test]
fn spells_rust_triples_for_zig() {
    assert_eq!(zig_target_for("x86_64-unknown-linux-gnu"), "x86_64-linux-gnu");
    assert_eq!(zig_target_for("x86_64-pc-windows"), "x86_64-windows-msvc");
    assert_eq!(zig_target_for("x86_64-pc-windows-gnu"), "x86_64-windows-gnu");
    assert_eq!(zig_target_for("aarch64-apple-darwin"), "aarch64-macos-none");
    assert_eq!(zig_target_for("aarch64-linux-musl"), "aarch64-linux-musl");
}

#[test]
fn both_spellings_reach_zig_alike() {
    for target in ["x86_64-linux-gnu", "x86_64-windows-gnu", "aarch64-macos-none"] {
        assert_eq!(zig_target_for(&cargo_target_for(target)), zig_target_for(target));
    }
}

#[test]
fn zig_spellings_are_preserved() {
    for target in ["x86_64-linux-musl", "x86_64-windows-gnu", "aarch64-macos-none", "a-linux-android"] {
        assert_eq!(zig_target_for(target), target);
    }
    for target in ["x86_64-unknown-linux-gnu", "x86_64-pc-windows", "aarch64-apple-darwin", "x"] {
        let spelling = zig_target_for(target);
        assert_eq!(zig_target_for(&spelling), spelling);
    }
}

#[test]
fn android_tables_agree() {
    let rows = [
        ("aarch64-linux-android", "arm64-v8a", "aarch64-linux-android", 21),
        ("armv7-linux-androideabi", "armeabi-v7a", "armv7a-linux-androideabi", 16),
        ("i686-linux-android", "x86", "i686-linux-android", 16),
        ("x86_64-linux-android", "x86_64", "x86_64-linux-android", 21),
    ];
    for (triple, abi, prefix, level) in rows {
        assert!(is_android_target(triple));
        assert_eq!(android_abi_for_target(triple), Some(abi));
        assert_eq!(android_compiler_prefix(triple), Ok((prefix, level)));
    }
    assert!(!is_android_target("x86_64-unknown-linux-gnu"));
    assert_eq!(android_abi_for_target("x86_64-unknown-linux-gnu"), None);
    assert_eq!(
        android_compiler_prefix("x86_64-unknown-linux-gnu"),
        Err("unsupported Android Rust target: x86_64-unknown-linux-gnu".to_string())
    );
}

#[test]
fn musl_suggestion_keeps_other_targets() {
    assert_eq!(android_musl_target("aarch64-linux-android"), "aarch64-linux-musl");
    assert_eq!(android_musl_target("x86_64-linux-gnu"), "x86_64-linux-gnu");
    assert_eq!(android_musl_target("a-android-android.5"), "a-musl");
}

#[test]
fn tells_windows_targets_apart() {
    assert!(is_msvc_target("x86_64-pc-windows-msvc"));
    assert!(!is_msvc_target("x86_64-pc-windows-gnu"));
    assert!(is_windows_gnu_target("x86_64-pc-windows-gnu"));
    assert!(!is_windows_gnu_target("x86_64-unknown-linux-gnu"));
    assert!(is_windows_zig_target("x86_64-Windows-gnu"));
    assert!(!is_windows_zig_target("x86_64-linux-gnu"));
}
