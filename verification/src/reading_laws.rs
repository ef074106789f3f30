//! How a command line is read, said of its arguments.

use vstd::prelude::*;

use crate::arguments::{
    at_argument, is_cargo_command, is_read, name_part, scan, setting_named, setting_of, step,
    takes_value, value_part, ParseState, Setting,
};
use crate::text::{find_char, lemma_find_char, lemma_find_char_is};

verus! {

// ---------------------------------------------------------------------------
// Arguments by name

/// Whether an argument is a name, an equals sign, and a value.
pub open spec fn gives(argument: Seq<char>, name: Seq<char>) -> bool {
    (name + seq!['=']).is_prefix_of(argument)
}

/// What stands behind a name and an equals sign.
pub open spec fn given_to(argument: Seq<char>, name: Seq<char>) -> Seq<char> {
    argument.skip(name.len() as int + 1)
}

pub(crate) proof fn lemma_gives(argument: Seq<char>, name: Seq<char>)
    requires
        !name.contains('='),
    ensures
        gives(argument, name) <==> find_char(argument, '=') < argument.len() && name_part(argument)
            == name,
        gives(argument, name) ==> value_part(argument) == given_to(argument, name),
{
    let start = name + seq!['='];
    let size = name.len() as int;
    lemma_find_char(argument, '=');
    if gives(argument, name) {
        assert(argument.take(size + 1) == start);
        assert forall|i: int| 0 <= i < size implies argument[i] != '=' by {
            assert(argument.take(size + 1)[i] == argument[i]);
            assert(name.contains(name[i]));
        }
        assert(argument.take(size + 1)[size] == argument[size]);
        lemma_find_char_is(argument, '=', size);
        assert(argument.take(size) =~= name) by {
            assert forall|i: int| 0 <= i < size implies argument[i] == name[i] by {
                assert(argument.take(size + 1)[i] == argument[i]);
            }
        }
    }
    if find_char(argument, '=') < argument.len() && name_part(argument) == name {
        assert(find_char(argument, '=') == size);
        assert(argument.take(size + 1) =~= start);
    }
}

pub(crate) proof fn lemma_setting_names()
    ensures
        !"-target"@.contains('=') && !"--target"@.contains('='),
        !"-ZigOptimize"@.contains('=') && !"--zig-opt"@.contains('='),
        !"-zigpatch"@.contains('=') && !"--zig-path"@.contains('='),
        !"--ndk-path"@.contains('=') && !"-ndkversion"@.contains('=') && !"-nindx"@.contains('='),
        !"-android-api"@.contains('=') && !"-DANDROID_PLATFORM"@.contains('='),
        !"-android-abi"@.contains('=') && !"-DANDROID_ABI"@.contains('='),
        !"-android-stl"@.contains('=') && !"-DANDROID_STL"@.contains('='),
        !"-android-cflag"@.contains('=') && !"-android-link-arg"@.contains('='),
        !"--windows-runtime"@.contains('='),
        setting_named("-target"@) == Some(Setting::Target),
        setting_named("--target"@) == Some(Setting::Target),
        setting_named("-ZigOptimize"@) == Some(Setting::Optimize),
        setting_named("--zig-opt"@) == Some(Setting::Optimize),
        setting_named("-zigpatch"@) == Some(Setting::ZigPath),
        setting_named("--zig-path"@) == Some(Setting::ZigPath),
        setting_named("--ndk-path"@) == Some(Setting::NdkPath),
        setting_named("-ndkversion"@) == Some(Setting::NdkVersion),
        setting_named("-nindx"@) == Some(Setting::NdkIndex),
        setting_named("-android-api"@) == Some(Setting::ApiLevel),
        setting_named("-DANDROID_PLATFORM"@) == Some(Setting::ApiLevel),
        setting_named("-android-abi"@) == Some(Setting::Abi),
        setting_named("-DANDROID_ABI"@) == Some(Setting::Abi),
        setting_named("-android-stl"@) == Some(Setting::Stl),
        setting_named("-DANDROID_STL"@) == Some(Setting::Stl),
        setting_named("-android-cflag"@) == Some(Setting::CFlag),
        setting_named("-android-link-arg"@) == Some(Setting::LinkArgument),
        setting_named("--windows-runtime"@) == Some(Setting::WindowsRuntime),
{
    reveal_strlit("-target");
    reveal_strlit("--target");
    reveal_strlit("-ZigOptimize");
    reveal_strlit("--zig-opt");
    reveal_strlit("-zigpatch");
    reveal_strlit("--zig-path");
    reveal_strlit("--ndk-path");
    reveal_strlit("-ndkversion");
    reveal_strlit("-nindx");
    reveal_strlit("-android-api");
    reveal_strlit("-DANDROID_PLATFORM");
    reveal_strlit("-android-abi");
    reveal_strlit("-DANDROID_ABI");
    reveal_strlit("-android-stl");
    reveal_strlit("-DANDROID_STL");
    reveal_strlit("-android-cflag");
    reveal_strlit("-android-link-arg");
    reveal_strlit("--windows-runtime");
    assert("-target"@.len() == 7 && "--target"@.len() == 8 && "-ZigOptimize"@.len() == 12);
    assert("--zig-opt"@.len() == 9 && "-zigpatch"@.len() == 9 && "--zig-path"@.len() == 10);
    assert("--ndk-path"@.len() == 10 && "-ndkversion"@.len() == 11 && "-nindx"@.len() == 6);
    assert("-android-api"@.len() == 12 && "-DANDROID_PLATFORM"@.len() == 18);
    assert("-android-abi"@.len() == 12 && "-DANDROID_ABI"@.len() == 13);
    assert("-android-stl"@.len() == 12 && "-DANDROID_STL"@.len() == 13);
    assert("-android-cflag"@.len() == 14 && "-android-link-arg"@.len() == 17);
    assert("--windows-runtime"@.len() == 17);
    assert("-ZigOptimize"@[1] == 'Z' && "-android-api"@[1] == 'a' && "-android-abi"@[1] == 'a');
    assert("-android-stl"@[1] == 'a' && "-android-api"@[9] == 'a' && "-android-api"@[10] == 'p');
    assert("-android-abi"@[9] == 'a' && "-android-abi"@[10] == 'b' && "-android-stl"@[9] == 's');
    assert("--zig-opt"@[1] == '-' && "-zigpatch"@[1] == 'z');
    assert("--zig-path"@[2] == 'z' && "--ndk-path"@[2] == 'n');
    assert("-DANDROID_ABI"@[10] == 'A' && "-DANDROID_STL"@[10] == 'S');
    assert("-android-link-arg"@[1] == 'a' && "--windows-runtime"@[1] == '-');
}

/// Which setting an argument makes, by its text.
pub open spec fn makes(argument: Seq<char>, setting: Setting) -> bool {
    match setting {
        Setting::Target => gives(argument, "-target"@) || gives(argument, "--target"@),
        Setting::Optimize => gives(argument, "-ZigOptimize"@) || gives(argument, "--zig-opt"@),
        Setting::ZigPath => gives(argument, "-zigpatch"@) || gives(argument, "--zig-path"@),
        Setting::NdkPath => gives(argument, "--ndk-path"@),
        Setting::NdkVersion => gives(argument, "-ndkversion"@),
        Setting::NdkIndex => gives(argument, "-nindx"@),
        Setting::ApiLevel => gives(argument, "-android-api"@) || gives(
            argument,
            "-DANDROID_PLATFORM"@,
        ),
        Setting::Abi => gives(argument, "-android-abi"@) || gives(argument, "-DANDROID_ABI"@),
        Setting::Stl => gives(argument, "-android-stl"@) || gives(argument, "-DANDROID_STL"@),
        Setting::CFlag => gives(argument, "-android-cflag"@),
        Setting::LinkArgument => gives(argument, "-android-link-arg"@),
        Setting::WindowsRuntime => gives(argument, "--windows-runtime"@),
    }
}

/// An argument makes a setting exactly if it is one of the setting's names, an
/// equals sign and a value.
pub proof fn law_settings_go_by_their_names(argument: Seq<char>, setting: Setting)
    ensures
        setting_of(argument) == Some(setting) <==> makes(argument, setting),
{
    lemma_setting_names();
    lemma_gives(argument, "-target"@);
    lemma_gives(argument, "--target"@);
    lemma_gives(argument, "-ZigOptimize"@);
    lemma_gives(argument, "--zig-opt"@);
    lemma_gives(argument, "-zigpatch"@);
    lemma_gives(argument, "--zig-path"@);
    lemma_gives(argument, "--ndk-path"@);
    lemma_gives(argument, "-ndkversion"@);
    lemma_gives(argument, "-nindx"@);
    lemma_gives(argument, "-android-api"@);
    lemma_gives(argument, "-DANDROID_PLATFORM"@);
    lemma_gives(argument, "-android-abi"@);
    lemma_gives(argument, "-DANDROID_ABI"@);
    lemma_gives(argument, "-android-stl"@);
    lemma_gives(argument, "-DANDROID_STL"@);
    lemma_gives(argument, "-android-cflag"@);
    lemma_gives(argument, "-android-link-arg"@);
    lemma_gives(argument, "--windows-runtime"@);
}

// ---------------------------------------------------------------------------
// What is read as an argument

/// The options of Cargo's that take the argument behind them as their value.
pub open spec fn options_with_values() -> Seq<Seq<char>> {
    seq![
        "-p"@,
        "--package"@,
        "--exclude"@,
        "-j"@,
        "--jobs"@,
        "-F"@,
        "--features"@,
        "--bin"@,
        "--example"@,
        "--test"@,
        "--bench"@,
        "--profile"@,
        "--manifest-path"@,
        "--message-format"@,
        "--target-dir"@,
        "--artifact-dir"@,
        "--color"@,
        "--config"@,
    ]
}

/// Options with values are no words of this tool and no commands.
pub(crate) proof fn lemma_options_with_values(option: Seq<char>)
    ensures
        options_with_values().contains(option) <==> takes_value(option),
        takes_value(option) ==> {
            &&& option != "zirild"@ && option != "-ndkfallback"@ && option != "--release"@
            &&& option != "-Z"@ && option != "--zig-release-small"@ && option != "--trace"@
            &&& option != "--"@ && option != "--target"@ && option != "-target"@
            &&& !is_cargo_command(option)
            &&& find_char(option, '=') == option.len()
        },
{
    let all = options_with_values();
    assert(all[0] == "-p"@);
    assert(all[1] == "--package"@);
    assert(all[2] == "--exclude"@);
    assert(all[3] == "-j"@);
    assert(all[4] == "--jobs"@);
    assert(all[5] == "-F"@);
    assert(all[6] == "--features"@);
    assert(all[7] == "--bin"@);
    assert(all[8] == "--example"@);
    assert(all[9] == "--test"@);
    assert(all[10] == "--bench"@);
    assert(all[11] == "--profile"@);
    assert(all[12] == "--manifest-path"@);
    assert(all[13] == "--message-format"@);
    assert(all[14] == "--target-dir"@);
    assert(all[15] == "--artifact-dir"@);
    assert(all[16] == "--color"@);
    assert(all[17] == "--config"@);
    reveal_strlit("-p");
    reveal_strlit("--package");
    reveal_strlit("--exclude");
    reveal_strlit("-j");
    reveal_strlit("--jobs");
    reveal_strlit("-F");
    reveal_strlit("--features");
    reveal_strlit("--bin");
    reveal_strlit("--example");
    reveal_strlit("--test");
    reveal_strlit("--bench");
    reveal_strlit("--profile");
    reveal_strlit("--manifest-path");
    reveal_strlit("--message-format");
    reveal_strlit("--target-dir");
    reveal_strlit("--artifact-dir");
    reveal_strlit("--color");
    reveal_strlit("--config");
    reveal_strlit("zirild");
    reveal_strlit("-ndkfallback");
    reveal_strlit("--release");
    reveal_strlit("-Z");
    reveal_strlit("--zig-release-small");
    reveal_strlit("--trace");
    reveal_strlit("--");
    reveal_strlit("--target");
    reveal_strlit("-target");
    reveal_strlit("build");
    reveal_strlit("check");
    reveal_strlit("run");
    reveal_strlit("test");
    reveal_strlit("bench");
    reveal_strlit("rustc");
    reveal_strlit("clippy");
    reveal_strlit("doc");
    reveal_strlit("asm");
    if takes_value(option) {
        assert(option[0] == '-');
        assert("zirild"@[0] == 'z' && "build"@[0] == 'b' && "check"@[0] == 'c' && "run"@[0] == 'r');
        assert("test"@[0] == 't' && "bench"@[0] == 'b' && "rustc"@[0] == 'r' && "clippy"@[0] == 'c');
        assert("doc"@[0] == 'd' && "asm"@[0] == 'a');
        assert("-ndkfallback"@.len() == 12 && "-ndkfallback"@[1] == 'n');
        assert("--release"@.len() == 9 && "--release"@[2] == 'r');
        assert("-Z"@.len() == 2 && "-Z"@[1] == 'Z' && "--"@.len() == 2 && "--"@[1] == '-');
        assert("--zig-release-small"@.len() == 19 && "--trace"@.len() == 7 && "--trace"@[2] == 't');
        assert("--target"@.len() == 8 && "--target"@[2] == 't');
        assert("-target"@.len() == 7 && "-target"@[1] == 't');
        assert(option.len() == 12 ==> option[1] == '-');
        assert(option.len() == 9 ==> option[2] == 'p' || option[2] == 'e');
        assert(option.len() == 2 ==> option[1] == 'p' || option[1] == 'j' || option[1] == 'F');
        assert(option.len() == 7 ==> option[1] == '-' && (option[2] == 'b' || option[2] == 'c'));
        assert(option.len() == 8 ==> option[2] == 'c');
        assert(option.len() != 19);
        assert forall|i: int| 0 <= i < option.len() implies option[i] != '=' by {}
        lemma_find_char_is(option, '=', option.len() as int);
    }
}

/// The words of this tool and of Cargo hold no equals sign.
proof fn lemma_words_without_equals(word: Seq<char>)
    requires
        word == "--"@ || word == "--target"@,
    ensures
        find_char(word, '=') == word.len(),
        word != "zirild"@ && word != "-ndkfallback"@ && word != "--release"@ && word != "-Z"@,
        word != "--zig-release-small"@ && word != "--trace"@,
        word == "--"@ ==> word != "--target"@,
{
    reveal_strlit("--");
    reveal_strlit("--target");
    reveal_strlit("zirild");
    reveal_strlit("-ndkfallback");
    reveal_strlit("--release");
    reveal_strlit("-Z");
    reveal_strlit("--zig-release-small");
    reveal_strlit("--trace");
    assert("--"@.len() == 2 && "--"@[1] == '-' && "--target"@.len() == 8);
    assert("zirild"@.len() == 6 && "-ndkfallback"@.len() == 12 && "--release"@.len() == 9);
    assert("-Z"@.len() == 2 && "-Z"@[1] == 'Z' && "--zig-release-small"@.len() == 19);
    assert("--trace"@.len() == 7);
    assert forall|i: int| 0 <= i < word.len() implies word[i] != '=' by {}
    lemma_find_char_is(word, '=', word.len() as int);
}

/// Whether an argument that is read takes the one behind it as its value.
pub open spec fn takes_next(argument: Seq<char>) -> bool {
    options_with_values().contains(argument) || argument == "--target"@
}

proof fn lemma_read_step(state: ParseState, argument: Seq<char>, position: int)
    requires
        at_argument(state),
    ensures
        step(state, argument, position) matches Ok(next) ==> {
            &&& next.passthrough <==> argument == "--"@
            &&& next.value_expected <==> takes_next(argument)
        },
{
    lemma_options_with_values(argument);
    if argument == "--"@ || argument == "--target"@ {
        lemma_words_without_equals(argument);
    }
}

proof fn lemma_reading(arguments: Seq<Seq<char>>, count: nat)
    requires
        count <= arguments.len(),
    ensures
        scan(arguments, count) matches Ok(state) ==> {
            &&& !(state.passthrough && state.value_expected)
            &&& state.value_expected ==> count > 0 && is_read(arguments, count - 1) && takes_next(
                arguments[count - 1],
            )
            &&& state.passthrough ==> exists|j: int|
                0 <= j < count && is_read(arguments, j) && #[trigger] arguments[j] == "--"@
        },
    decreases count,
{
    if count > 0 {
        let before = (count - 1) as nat;
        lemma_reading(arguments, before);
        if let Ok(state) = scan(arguments, before) {
            if at_argument(state) {
                lemma_read_step(state, arguments[count - 1], count - 1);
                assert(is_read(arguments, count - 1));
            }
        }
    }
}

/// The first argument is read as one. Behind an argument that is read, the next
/// is read unless that was `--` or takes a value. Behind a value the next is
/// read, and behind `--` none.
pub proof fn law_what_is_read_as_an_argument(arguments: Seq<Seq<char>>, i: int)
    requires
        0 <= i < arguments.len(),
        scan(arguments, (i + 1) as nat) is Ok,
    ensures
        is_read(arguments, 0),
        is_read(arguments, i) ==> (is_read(arguments, i + 1) <==> arguments[i] != "--"@
            && !takes_next(arguments[i])),
        !is_read(arguments, i) ==> (is_read(arguments, i + 1) <==> i > 0 && is_read(
            arguments,
            i - 1,
        ) && takes_next(arguments[i - 1])),
{
    lemma_reading(arguments, i as nat);
    let state = scan(arguments, i as nat)->Ok_0;
    assert(scan(arguments, (i + 1) as nat) == step(state, arguments[i], i));
    if at_argument(state) {
        lemma_read_step(state, arguments[i], i);
    } else if i > 0 {
        lemma_reading(arguments, (i - 1) as nat);
        if is_read(arguments, i - 1) {
            let earlier = scan(arguments, (i - 1) as nat)->Ok_0;
            assert(scan(arguments, i as nat) == step(earlier, arguments[i - 1], i - 1));
            lemma_read_step(earlier, arguments[i - 1], i - 1);
            if takes_next(arguments[i - 1]) {
                lemma_options_with_values(arguments[i - 1]);
                lemma_words_without_equals("--target"@);
                lemma_words_without_equals("--"@);
            }
        }
    }
}

} // verus!
