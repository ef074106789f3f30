use cargo_zirild::erratum::{is_cortex_erratum_argument, rewrite_plain_response};
use cargo_zirild::musl::{is_musl_startup_argument, is_musl_zig_target, rewrite_musl_response};
use cargo_zirild::response::{
    find_windows_import_library, requested_windows_library, response_definition_files,
    response_file, response_library_directories, rewrite_windows_response,
    transform_windows_response_line, windows_import_library_names, DefinitionCopy,
    LibraryDirectory, LibraryFile,
};
use cargo_zirild::windows::{
    is_windows_auto_image_base_argument, is_windows_runtime_argument,
    transform_windows_linker_argument, windows_definition_file,
    windows_definition_with_fallback_export,
};

fn lines(list: &[&str]) -> Vec<String> {
    list.iter().map(|line| line.to_string()).collect()
}

fn directory(files: &[(&str, &str)]) -> LibraryDirectory {
    LibraryDirectory {
        files: files
            .iter()
            .map(|(name, path)| LibraryFile { name: name.to_string(), path: path.to_string() })
            .collect(),
    }
}

#[test]
fn converts_windows_definition_file_for_zig_linker() {
    let argument = "-Wl,D:\\build\\exports.def";
    assert_eq!(
        transform_windows_linker_argument(argument),
        "D:\\build\\exports.def"
    );
}

#[test]
fn converts_definition_files_inside_linker_response_files() {
    assert_eq!(
        transform_windows_response_line("\"-Wl,D:\\build\\exports.def\"", &[]),
        Some("\"D:\\build\\exports.def\"".into())
    );
    assert_eq!(
        transform_windows_response_line("\"-nodefaultlibs\"", &[]),
        None
    );
    assert_eq!(
        transform_windows_response_line("\"-Wl,--disable-auto-image-base\"", &[]),
        None
    );
}

#[test]
fn adds_fallback_export_only_to_empty_definition_files() {
    assert_eq!(
        windows_definition_with_fallback_export("EXPORTS\n"),
        Some("EXPORTS\n    DllMainCRTStartup\n".into())
    );
    assert_eq!(
        windows_definition_with_fallback_export("EXPORTS\n    real_export\n"),
        None
    );
}

#[test]
fn definition_files_are_read_line_by_line() {
    let fallback = Some("EXPORTS\n    DllMainCRTStartup\n".to_string());
    assert_eq!(windows_definition_with_fallback_export(""), None);
    assert_eq!(windows_definition_with_fallback_export("LIBRARY x\n"), None);
    assert_eq!(windows_definition_with_fallback_export("LIBRARY x\r\n exports \r\n; none\r\n\r\n"), fallback);
    assert_eq!(windows_definition_with_fallback_export("EXPORTS\nEXPORTS"), fallback);
    assert_eq!(windows_definition_with_fallback_export("EXPORTS\n;\nreal"), None);
    assert_eq!(windows_definition_with_fallback_export(fallback.as_ref().unwrap()), None);
}

#[test]
fn linker_arguments_are_told_apart() {
    for argument in [
        "-nodefaultlibs",
        "-lgcc_eh",
        "-l:libpthread.a",
        "-lmsvcrt",
        "-lmingwex",
        "-lmingw32",
        "-lgcc",
    ] {
        assert!(is_windows_runtime_argument(argument));
        assert!(!is_windows_auto_image_base_argument(argument));
    }
    for argument in [
        "-Wl,--enable-auto-image-base",
        "-Wl,--disable-auto-image-base",
        "--enable-auto-image-base",
        "--disable-auto-image-base",
    ] {
        assert!(is_windows_auto_image_base_argument(argument));
        assert!(!is_windows_runtime_argument(argument));
        assert_eq!(windows_definition_file(argument), None);
    }
    assert!(!is_windows_runtime_argument("-lkernel32"));
    assert_eq!(windows_definition_file("-Wl,A.DEF"), Some("A.DEF".to_string()));
    assert_eq!(windows_definition_file("A.def"), None);
    assert_eq!(transform_windows_linker_argument("-Wl,--def"), "-Wl,--def");
}

#[test]
fn response_files_are_named_behind_an_at_sign() {
    assert_eq!(response_file("@/tmp/linker-arguments"), Some("/tmp/linker-arguments".to_string()));
    assert_eq!(response_file("@"), Some(String::new()));
    assert_eq!(response_file("a@b"), None);
    assert_eq!(response_file(""), None);
}

#[test]
fn library_directories_come_joined_or_apart() {
    let list = lines(&["\"-L\"", "\"C:\\libs\"", "-Lb", "x", " -L c ", "-L"]);
    assert_eq!(response_library_directories(&list), ["C:\\libs", "b", " c"]);
    assert_eq!(response_library_directories(&lines(&["-L", "-L", "-Ld"])), ["-L", "d"]);
}

#[test]
fn libraries_are_found_in_order() {
    assert_eq!(windows_import_library_names("foo"), ["libfoo.a", "foo.lib", "libfoo.dll.a"]);
    let search = [
        directory(&[("libbar.a", "1/libbar.a")]),
        directory(&[("libfoo.dll.a", "2/libfoo.dll.a"), ("foo.lib", "2/foo.lib")]),
        directory(&[("libfoo.a", "3/libfoo.a")]),
    ];
    assert_eq!(find_windows_import_library("foo", &search), Some("2/foo.lib".to_string()));
    assert_eq!(find_windows_import_library("bar", &search), Some("1/libbar.a".to_string()));
    assert_eq!(find_windows_import_library("baz", &search), None);
    assert_eq!(
        transform_windows_response_line("-lfoo", &search),
        Some("\"2/foo.lib\"".to_string())
    );
    assert_eq!(transform_windows_response_line(" -lbaz ", &search), Some(" -lbaz ".to_string()));
    assert_eq!(requested_windows_library("\"-lfoo\""), Some("foo".to_string()));
    assert_eq!(requested_windows_library("-lgcc"), None);
    assert_eq!(requested_windows_library("foo"), None);
}

#[test]
fn windows_responses_are_rewritten() {
    let original = "\"-o\"\r\n-lgcc\n-Wl,x.def\n\"-Wl,y.def\"\n-lfoo\n--enable-auto-image-base\n";
    let copies = [DefinitionCopy { original: "y.def".into(), copy: "copy.def".into() }];
    let search = [directory(&[("libfoo.a", "dir/libfoo.a")])];
    assert_eq!(
        rewrite_windows_response(original, &search, &copies, false, false),
        Some("\"-o\"\nx.def\n\"copy.def\"\n\"dir/libfoo.a\"\n".to_string())
    );
    assert_eq!(
        rewrite_windows_response(original, &search, &copies, true, false),
        Some("\"-o\"\n-lgcc\nx.def\n\"copy.def\"\n\"dir/libfoo.a\"\n".to_string())
    );
    assert_eq!(rewrite_windows_response("a\nb", &[], &[], false, false), None);
    assert_eq!(rewrite_windows_response("", &[], &[], false, false), None);
    assert_eq!(
        rewrite_windows_response("a\nb\n", &[], &[], false, false),
        Some("a\nb\n".to_string())
    );
    assert_eq!(
        response_definition_files(&lines(&["-Wl,x.def", "y.def", " \"-Wl,Z.Def\" "])),
        ["x.def", "Z.Def"]
    );
}

#[test]
fn erratum_switch_leaves_response_files() {
    let switch = "-Wl,--fix-cortex-a53-843419";
    let original = format!("a.o\n\"{switch}\"\n-lgcc\n");
    let without = Some("a.o\n-lgcc\n".to_string());
    assert_eq!(rewrite_plain_response(&original), without);
    assert_eq!(rewrite_musl_response(&original), without);
    assert_eq!(rewrite_windows_response(&original, &[], &[], true, false), without);
    assert_eq!(
        rewrite_windows_response(&original, &[], &[], true, true),
        Some(original.clone())
    );
    assert_eq!(rewrite_plain_response(switch), Some("\n".to_string()));
    for untouched in ["", "a.o", "a.o\r\n-nodefaultlibs\n", "--fix-cortex-a53-843419\n"] {
        assert_eq!(rewrite_plain_response(untouched), None);
    }
}

#[test]
fn musl_startup_objects_are_known() {
    assert!(is_musl_zig_target("x86_64-linux-musl"));
    assert!(is_musl_zig_target("arm-linux-musleabihf"));
    assert!(!is_musl_zig_target("x86_64-linux-gnu"));
    assert!(is_musl_startup_argument("-nostartfiles"));
    assert!(is_musl_startup_argument("/rust/lib/self-contained/crt1.o"));
    assert!(is_musl_startup_argument("C:\\rust\\self-contained\\crti.o"));
    assert!(!is_musl_startup_argument("/rust/self-contained/libc.a"));
    assert!(!is_musl_startup_argument("/target/deps/main.o"));
    assert!(!is_musl_startup_argument("crt1.o"));
    assert!(is_cortex_erratum_argument("-Wl,--fix-cortex-a53-843419"));
    assert!(!is_cortex_erratum_argument("--fix-cortex-a53-843419"));
}

#[test]
fn only_startup_objects_are_startup_objects() {
    for name in [
        "crt1.o", "Scrt1.o", "rcrt1.o", "crti.o", "crtn.o", "crtbegin.o", "crtbeginS.o",
        "crtbeginT.o", "crtend.o", "crtendS.o",
    ] {
        assert!(is_musl_startup_argument(&format!("w/self-contained/{name}")));
        assert!(!is_musl_startup_argument(&format!("w/{name}")));
        assert!(!is_musl_startup_argument(&format!("self-contained/w/{name}")));
    }
    for name in ["main.o", "crt.o", "mycrt1.o", "crtbegin.a", "crtend", "CRT1.o", ".o"] {
        assert!(!is_musl_startup_argument(&format!("w/self-contained/{name}")));
    }
    assert_eq!(
        rewrite_musl_response("w/self-contained/main.o\nw/self-contained/crt1.o\n"),
        Some("w/self-contained/main.o\n".to_string())
    );
}

#[test]
fn musl_responses_are_rewritten_once() {
    let original = "\"-nostartfiles\"\n\"/r/self-contained/rcrt1.o\"\nmain.o\n-Wl,--fix-cortex-a53-843419\n-lc\n";
    let rewritten = rewrite_musl_response(original);
    assert_eq!(rewritten, Some("main.o\n-lc\n".to_string()));
    assert_eq!(rewrite_musl_response(&rewritten.unwrap()), Some("main.o\n-lc\n".to_string()));
    assert_eq!(rewrite_musl_response("main.o"), None);
    assert_eq!(rewrite_musl_response("-nostartfiles"), Some("\n".to_string()));
}
