//! What holds of every request.

use vstd::prelude::*;

use crate::arguments::{
    at_argument, forwarding, is_read, name_part, parse, reads_word, scan, setting_of, step,
    takes_value, BuildSettings, ParseState, Setting,
};
use crate::arguments_laws::{
    law_subcommand_name_is_skipped, lemma_scan_behind_separator, lemma_scan_prefix,
    lemma_separator_step, lemma_shifted_scan,
};
use crate::cargo::{cargo_environment, cargo_leading, gives_target, wrapper_environment, ValueText};
use crate::driver::{accepted_build, asks};
use crate::options::no_android_settings;
use crate::target::{is_android, is_msvc, is_windows_gnu};
use crate::text::lemma_find_char_is;

verus! {

/// Help is asked for in front of `--` only: what follows belongs to the program
/// that Cargo runs.
pub proof fn law_words_behind_separator_ask_nothing(
    front: Seq<Seq<char>>,
    rest: Seq<Seq<char>>,
    long: Seq<char>,
    short: Seq<char>,
)
    requires
        long != "--"@,
        short != "--"@,
    ensures
        asks(front + seq!["--"@] + rest, long, short) == asks(front, long, short),
{
    let whole = front + seq!["--"@] + rest;
    assert(whole[front.len() as int] == "--"@);
    assert forall|i: int| 0 <= i < front.len() implies front[i] == whole[i] by {}
    if asks(front, long, short) {
        let i = choose|i: int|
            {
                &&& 0 <= i < front.len()
                &&& #[trigger] front[i] == long || front[i] == short
                &&& forall|j: int| 0 <= j < i ==> #[trigger] front[j] != "--"@
            };
        assert(whole[i] == front[i]);
        assert forall|j: int| 0 <= j < i implies #[trigger] whole[j] != "--"@ by {
            assert(whole[j] == front[j]);
        }
    }
    if asks(whole, long, short) {
        let i = choose|i: int|
            {
                &&& 0 <= i < whole.len()
                &&& #[trigger] whole[i] == long || whole[i] == short
                &&& forall|j: int| 0 <= j < i ==> #[trigger] whole[j] != "--"@
            };
        assert(i < front.len());
        assert(whole[i] == front[i]);
        assert forall|j: int| 0 <= j < i implies #[trigger] front[j] != "--"@ by {
            assert(whole[j] == front[j]);
        }
    }
}

/// A request is the same with the subcommand's name in front of it as without,
/// but for the positions of the arguments behind the name.
pub proof fn law_subcommand_name_asks_nothing(
    arguments: Seq<Seq<char>>,
    long: Seq<char>,
    short: Seq<char>,
)
    requires
        long != "zirild"@,
        short != "zirild"@,
    ensures
        asks(seq!["zirild"@] + arguments, long, short) == asks(arguments, long, short),
        accepted_build(seq!["zirild"@] + arguments) == match accepted_build(arguments) {
            Ok(build) => Ok::<BuildSettings, Seq<char>>(
                BuildSettings {
                    cargo_positions: build.cargo_positions.map_values(
                        |position: int| position + 1,
                    ),
                    ..build
                },
            ),
            Err(message) => Err(message),
        },
{
    let whole = seq!["zirild"@] + arguments;
    law_subcommand_name_is_skipped(arguments);
    reveal_strlit("zirild");
    reveal_strlit("--");
    assert("zirild"@.len() == 6 && "--"@.len() == 2);
    assert(whole[0] == "zirild"@);
    if asks(arguments, long, short) {
        let i = choose|i: int|
            {
                &&& 0 <= i < arguments.len()
                &&& #[trigger] arguments[i] == long || arguments[i] == short
                &&& forall|j: int| 0 <= j < i ==> #[trigger] arguments[j] != "--"@
            };
        assert(whole[i + 1] == arguments[i]);
        assert forall|j: int| 0 <= j < i + 1 implies #[trigger] whole[j] != "--"@ by {
            if j > 0 {
                assert(whole[j] == arguments[j - 1]);
            }
        }
    }
    if asks(whole, long, short) {
        let i = choose|i: int|
            {
                &&& 0 <= i < whole.len()
                &&& #[trigger] whole[i] == long || whole[i] == short
                &&& forall|j: int| 0 <= j < i ==> #[trigger] whole[j] != "--"@
            };
        assert(i > 0);
        assert(whole[i] == arguments[i - 1]);
        assert forall|j: int| 0 <= j < i - 1 implies #[trigger] arguments[j] != "--"@ by {
            assert(whole[j + 1] == arguments[j]);
        }
    }
}

/// The version is not asked for by what stands behind `--`.
pub proof fn law_version_is_not_read_behind_separator(
    front: Seq<Seq<char>>,
    rest: Seq<Seq<char>>,
    long: Seq<char>,
    short: Seq<char>,
)
    requires
        long != "--"@,
        short != "--"@,
        scan(front, front.len()) matches Ok(state) && at_argument(state),
    ensures
        reads_word(front + (seq!["--"@] + rest), long, short) == reads_word(front, long, short),
{
    let tail = seq!["--"@] + rest;
    let whole = front + tail;
    let count = front.len();
    let state = scan(front, count)->Ok_0;
    assert forall|i: int| 0 <= i < count implies is_read(whole, i) == is_read(front, i)
        && #[trigger] whole[i] == front[i] by {
        lemma_scan_prefix(front, whole, i as nat);
    }
    lemma_scan_prefix(front, whole, count);
    lemma_separator_step(state, count as int);
    assert(whole[count as int] == "--"@);
    let behind = ParseState { passthrough: true, ..forwarding(state, count as int) };
    assert(scan(whole, count + 1) == Ok::<ParseState, Seq<char>>(behind));
    assert forall|i: int| count < i < whole.len() implies !is_read(whole, i) by {
        lemma_scan_behind_separator(whole, behind, count + 1, (i - count - 1) as nat);
    }
    if reads_word(front, long, short) {
        let i = choose|i: int|
            {
                &&& 0 <= i < front.len()
                &&& #[trigger] front[i] == long || front[i] == short
                &&& is_read(front, i)
            };
        assert(whole[i] == front[i]);
    }
    if reads_word(whole, long, short) {
        let i = choose|i: int|
            {
                &&& 0 <= i < whole.len()
                &&& #[trigger] whole[i] == long || whole[i] == short
                &&& is_read(whole, i)
            };
        assert(i < count);
        assert(front[i] == whole[i]);
    }
}

/// The version is not asked for by the value of an option, nor behind `--`: a
/// command line on which the words for it stand nowhere else is not such a
/// request.
pub proof fn law_option_value_asks_no_version(
    arguments: Seq<Seq<char>>,
    long: Seq<char>,
    short: Seq<char>,
)
    requires
        forall|i: int|
            0 <= i < arguments.len() && (#[trigger] arguments[i] == long || arguments[i] == short)
                ==> (scan(arguments, i as nat) matches Ok(state) ==> state.value_expected
                || state.passthrough),
    ensures
        !reads_word(arguments, long, short),
{
}

/// The version is asked for with the subcommand's name in front exactly if it is
/// without.
pub proof fn law_subcommand_name_asks_no_version(
    arguments: Seq<Seq<char>>,
    long: Seq<char>,
    short: Seq<char>,
)
    requires
        long != "zirild"@,
        short != "zirild"@,
    ensures
        reads_word(seq!["zirild"@] + arguments, long, short) == reads_word(arguments, long, short),
{
    let whole = seq!["zirild"@] + arguments;
    assert(whole[0] == "zirild"@);
    assert forall|i: int| 0 <= i < arguments.len() implies is_read(whole, i + 1) == is_read(
        arguments,
        i,
    ) && whole[i + 1] == #[trigger] arguments[i] by {
        lemma_shifted_scan(arguments, i as nat);
    }
    if reads_word(arguments, long, short) {
        let i = choose|i: int|
            {
                &&& 0 <= i < arguments.len()
                &&& #[trigger] arguments[i] == long || arguments[i] == short
                &&& is_read(arguments, i)
            };
        assert(whole[i + 1] == arguments[i]);
    }
    if reads_word(whole, long, short) {
        let i = choose|i: int|
            {
                &&& 0 <= i < whole.len()
                &&& #[trigger] whole[i] == long || whole[i] == short
                &&& is_read(whole, i)
            };
        assert(i > 0);
        assert(arguments[i - 1] == whole[i]);
        assert(is_read(arguments, i - 1));
    }
}

/// A build that is accepted has Android options for an Android target only, and
/// a Windows runtime for a Windows GNU target only. The NDK takes Zig's place
/// for Android targets only, which MSVC does not build.
pub proof fn law_accepted_options_fit_the_target(arguments: Seq<Seq<char>>)
    ensures
        accepted_build(arguments) matches Ok(build) ==> {
            &&& build.android != no_android_settings() ==> is_android(build.cargo_target)
            &&& build.windows_runtime is Some ==> is_windows_gnu(build.cargo_target)
            &&& build.android.ndk_fallback ==> is_android(build.cargo_target) && !is_msvc(
                build.cargo_target,
            )
        },
{
    if let Ok(build) = accepted_build(arguments) {
        if build.android.ndk_fallback {
            assert(build.android != no_android_settings());
            lemma_android_is_not_msvc(build.cargo_target);
        }
    }
}

proof fn lemma_android_is_not_msvc(triple: Seq<char>)
    requires
        is_android(triple),
    ensures
        !is_msvc(triple),
{
    reveal_strlit("-msvc");
    reveal_strlit("aarch64-linux-android");
    reveal_strlit("armv7-linux-androideabi");
    reveal_strlit("i686-linux-android");
    reveal_strlit("x86_64-linux-android");
    if is_msvc(triple) {
        assert(triple.skip(triple.len() - 5)[4] == triple.last());
        assert("-msvc"@[4] == 'c');
    }
}

/// Whether a value names a wrapper, or the directory with all of them.
pub open spec fn names_wrapper(value: ValueText) -> bool {
    value is WrapperCc || value is WrapperCxx || value is WrapperLinker || value is WrapperAr
        || value is SearchPath
}

/// Targets of MSVC keep the system's compiler, linker and librarian: nothing
/// that Cargo finds in its environment names a wrapper.
pub proof fn law_msvc_keeps_the_system_tools(build: BuildSettings)
    requires
        is_msvc(build.cargo_target),
    ensures
        forall|i: int|
            0 <= i < cargo_environment(build).len() ==> !names_wrapper(
                (#[trigger] cargo_environment(build)[i]).1,
            ),
{
    let first = wrapper_environment(build);
    assert(forall|i: int| 0 <= i < first.len() ==> !names_wrapper((#[trigger] first[i]).1)) by {
        lemma_wrapper_environment_names_none(build);
    }
    assert(!is_android(build.cargo_target)) by {
        if is_android(build.cargo_target) {
            lemma_android_is_not_msvc(build.cargo_target);
        }
    }
    assert(cargo_environment(build) =~= first);
}

proof fn lemma_wrapper_environment_names_none(build: BuildSettings)
    ensures
        forall|i: int|
            0 <= i < wrapper_environment(build).len() ==> !names_wrapper(
                (#[trigger] wrapper_environment(build)[i]).1,
            ),
{
}

// ---------------------------------------------------------------------------
// The target is given once

/// Whether an argument gives Cargo a target.
pub open spec fn is_target_argument(argument: Seq<char>) -> bool {
    argument == "--target"@ || "--target="@.is_prefix_of(argument)
}

/// Whether none of the first `count` arguments at some positions gives a target.
spec fn no_target_before(arguments: Seq<Seq<char>>, list: Seq<int>, count: int) -> bool {
    forall|k: int| 0 <= k < count ==> !is_target_argument(arguments[#[trigger] list[k]])
}

/// Whether `--` stands among the arguments at some positions, in front of every
/// target.
spec fn separated(arguments: Seq<Seq<char>>, list: Seq<int>) -> bool {
    exists|s: int|
        {
            &&& 0 <= s < list.len()
            &&& arguments[#[trigger] list[s]] == "--"@
            &&& no_target_before(arguments, list, s)
        }
}

/// `--target=` makes a setting.
proof fn lemma_target_is_a_setting(argument: Seq<char>)
    requires
        "--target="@.is_prefix_of(argument),
    ensures
        setting_of(argument) == Some(Setting::Target),
{
    reveal_strlit("--target=");
    reveal_strlit("--target");
    let start = argument.take(9);
    assert(start == "--target="@);
    assert forall|i: int| 0 <= i < 9 implies argument[i] == "--target="@[i] by {
        assert(start[i] == argument[i]);
    }
    lemma_find_char_is(argument, '=', 8);
    assert(name_part(argument) =~= "--target"@);
}

/// Whether a state hands Cargo no target but behind `--`.
spec fn hands_on_no_target(arguments: Seq<Seq<char>>, state: ParseState, count: int) -> bool {
    &&& !state.passthrough && state.value_expected ==> count > 0 && takes_value(
        arguments[count - 1],
    )
    &&& state.passthrough ==> separated(arguments, state.forwarded)
    &&& !state.passthrough ==> no_target_before(
        arguments,
        state.forwarded,
        state.forwarded.len() as int,
    )
}

proof fn lemma_handed_on_step(
    arguments: Seq<Seq<char>>,
    state: ParseState,
    next: ParseState,
    position: int,
)
    requires
        0 <= position < arguments.len(),
        state.command != Some("asm"@),
        hands_on_no_target(arguments, state, position),
        step(state, arguments[position], position) == Ok::<ParseState, Seq<char>>(next),
        position > 0 && takes_value(arguments[position - 1]) ==> !is_target_argument(
            arguments[position],
        ),
    ensures
        hands_on_no_target(arguments, next, position + 1),
{
    let argument = arguments[position];
    if "--target="@.is_prefix_of(argument) {
        lemma_target_is_a_setting(argument);
    }
    if next.forwarded != state.forwarded {
        let list = next.forwarded;
        assert(list == state.forwarded.push(position));
        assert forall|k: int| 0 <= k < state.forwarded.len() implies list[k]
            == state.forwarded[k] by {}
        assert(list[state.forwarded.len() as int] == position);
        if state.passthrough {
            let s = choose|s: int|
                {
                    &&& 0 <= s < state.forwarded.len()
                    &&& arguments[#[trigger] state.forwarded[s]] == "--"@
                    &&& no_target_before(arguments, state.forwarded, s)
                };
            assert(arguments[list[s]] == "--"@);
            assert(no_target_before(arguments, list, s));
        } else {
            reveal_strlit("--release");
            reveal_strlit("--target");
            assert("--release"@[2] == 'r' && "--target"@[2] == 't');
            assert("--"@ != "--target"@) by {
                reveal_strlit("--");
                assert("--"@.len() == 2);
            }
            assert(!is_target_argument(argument));
            assert(no_target_before(arguments, list, list.len() as int));
            if next.passthrough {
                assert(arguments[list[state.forwarded.len() as int]] == "--"@);
                assert(no_target_before(arguments, list, state.forwarded.len() as int));
            }
        }
    }
}

proof fn lemma_no_target_handed_on(arguments: Seq<Seq<char>>, count: nat)
    requires
        count <= arguments.len(),
        forall|i: int|
            0 <= i < arguments.len() - 1 && takes_value(#[trigger] arguments[i])
                ==> !is_target_argument(arguments[i + 1]),
    ensures
        scan(arguments, count) matches Ok(state) ==> state.command != Some("asm"@)
            ==> hands_on_no_target(arguments, state, count as int),
    decreases count,
{
    if count > 0 {
        let before = (count - 1) as nat;
        lemma_no_target_handed_on(arguments, before);
        if let Ok(state) = scan(arguments, before) {
            if let Ok(next) = step(state, arguments[count - 1], count - 1) {
                if next.command != Some("asm"@) {
                    lemma_handed_on_step(arguments, state, next, count - 1);
                }
            }
        }
    }
}

/// `-target` is the only source of the target: what is handed on to Cargo gives
/// no other in front of `--`. Left out are `asm`, which may be given a target of
/// its own, and a target as the value of another option.
pub proof fn law_cargo_is_given_one_target(arguments: Seq<Seq<char>>)
    requires
        forall|i: int|
            0 <= i < arguments.len() - 1 && takes_value(#[trigger] arguments[i])
                ==> !is_target_argument(arguments[i + 1]),
    ensures
        parse(arguments) matches Ok(build) ==> build.cargo_command != "asm"@ ==> !gives_target(
            build.cargo_args,
        ) && cargo_leading(build) == seq![build.cargo_command, "--target"@, build.cargo_target],
{
    lemma_no_target_handed_on(arguments, arguments.len());
    if let Ok(build) = parse(arguments) {
        if build.cargo_command != "asm"@ {
            let state = scan(arguments, arguments.len())->Ok_0;
            let list = state.forwarded;
            let given = build.cargo_args;
            assert forall|k: int| 0 <= k < list.len() implies given[k] == arguments[list[k]] by {}
            if gives_target(given) {
                let i = choose|i: int|
                    {
                        &&& 0 <= i < given.len()
                        &&& #[trigger] given[i] == "--target"@ || "--target="@.is_prefix_of(
                            given[i],
                        )
                        &&& forall|j: int| 0 <= j < i ==> #[trigger] given[j] != "--"@
                    };
                assert(is_target_argument(arguments[list[i]]));
                if state.passthrough {
                    let s = choose|s: int|
                        {
                            &&& 0 <= s < list.len()
                            &&& arguments[#[trigger] list[s]] == "--"@
                            &&& no_target_before(arguments, list, s)
                        };
                    assert(given[s] == "--"@);
                    reveal_strlit("--");
                    reveal_strlit("--target");
                    reveal_strlit("--target=");
                    assert("--"@.len() == 2 && "--target"@.len() == 8 && "--target="@.len() == 9);
                    assert(i != s);
                    assert(i > s);
                }
            }
        }
    }
}

} // verus!
