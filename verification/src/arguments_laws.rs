//! What holds of every command line.

use vstd::prelude::*;

use crate::arguments::{
    at_argument, forwarding, initial_state, is_asm_target, is_cargo_command,
    lemma_forwarded_in_order, name_part, parse, scan, setting_of, step, value_part, BuildSettings,
    ParseState, Setting,
};
use crate::options::{is_optimize_mode, requested_api_level};
use crate::target::{android_abi, is_android};
use crate::text::{find_char, lemma_find_char, lemma_find_char_is};

verus! {

/// The state does not depend on arguments that were not read yet.
pub(crate) proof fn lemma_scan_prefix(a: Seq<Seq<char>>, b: Seq<Seq<char>>, count: nat)
    requires
        count <= a.len(),
        count <= b.len(),
        forall|i: int| 0 <= i < count ==> a[i] == b[i],
    ensures
        scan(a, count) == scan(b, count),
    decreases count,
{
    if count > 0 {
        lemma_scan_prefix(a, b, (count - 1) as nat);
    }
}

/// Arguments reach Cargo verbatim, each once at most and in their order.
pub proof fn law_arguments_are_forwarded_verbatim(arguments: Seq<Seq<char>>)
    ensures
        parse(arguments) matches Ok(build) ==> {
            &&& build.cargo_args.len() == build.cargo_positions.len()
            &&& forall|i: int|
                0 <= i < build.cargo_positions.len() ==> {
                    &&& 0 <= #[trigger] build.cargo_positions[i] < arguments.len()
                    &&& build.cargo_args[i] == arguments[build.cargo_positions[i]]
                }
            &&& forall|i: int, j: int|
                0 <= i < j < build.cargo_positions.len() ==> build.cargo_positions[i]
                    < build.cargo_positions[j]
        },
{
    lemma_forwarded_in_order(arguments, arguments.len());
}

/// An argument that makes a setting of this tool does not reach Cargo.
pub proof fn law_settings_stay_out(state: ParseState, argument: Seq<char>, position: int)
    requires
        at_argument(state),
        !is_asm_target(state, argument),
        setting_of(argument) is Some,
    ensures
        step(state, argument, position) matches Ok(next) ==> next.forwarded == state.forwarded,
{
}

/// Whether an argument is a flag of this tool that takes no value.
pub open spec fn is_own_flag(argument: Seq<char>) -> bool {
    ||| argument == "-ndkfallback"@
    ||| argument == "-Z"@
    ||| argument == "--zig-release-small"@
    ||| argument == "--trace"@
}

/// Whether an argument selects the Cargo command.
pub open spec fn selects_command(state: ParseState, argument: Seq<char>) -> bool {
    state.command is None && !state.cargo_begun && is_cargo_command(argument)
}

/// Every argument reaches Cargo that makes no setting, is no flag of this tool,
/// does not select the command, and is neither the subcommand's name in front of
/// a command nor a target. It changes nothing that was set.
pub proof fn law_other_arguments_are_forwarded(
    state: ParseState,
    argument: Seq<char>,
    position: int,
)
    requires
        at_argument(state),
        setting_of(argument) is None,
        !is_own_flag(argument),
        !selects_command(state, argument),
        argument == "zirild"@ ==> state.command is Some,
        argument != "--target"@ && argument != "-target"@,
    ensures
        step(state, argument, position) matches Ok(next) && {
            &&& next.forwarded == state.forwarded.push(position)
            &&& next.target == state.target
            &&& next.optimize == state.optimize
            &&& next.zig_path == state.zig_path
            &&& next.small == state.small
            &&& next.trace == state.trace
            &&& next.windows_runtime == state.windows_runtime
            &&& next.command == state.command
            &&& next.android == state.android
        },
{
}

/// The value of a Cargo option reaches Cargo whatever it looks like: it selects
/// no command, makes no setting and is not refused.
pub proof fn law_option_value_is_only_a_value(
    state: ParseState,
    argument: Seq<char>,
    position: int,
)
    requires
        !state.passthrough,
        state.value_expected,
    ensures
        step(state, argument, position) == Ok::<ParseState, Seq<char>>(
            ParseState { value_expected: false, ..forwarding(state, position) },
        ),
{
}

/// Once an argument was read that only Cargo understands, no argument selects
/// the command any more.
pub proof fn law_no_command_behind_cargo_arguments(
    state: ParseState,
    argument: Seq<char>,
    position: int,
)
    requires
        state.cargo_begun,
    ensures
        step(state, argument, position) matches Ok(next) ==> next.command == state.command
            && next.cargo_begun,
{
}

/// A target as an argument of its own is refused.
pub proof fn law_separate_target_is_refused(state: ParseState, position: int)
    requires
        at_argument(state),
        state.command != Some("asm"@),
    ensures
        step(state, "--target"@, position) is Err,
        step(state, "-target"@, position) is Err,
{
    reveal_strlit("--target");
    reveal_strlit("-target");
    reveal_strlit("zirild");
    reveal_strlit("-ndkfallback");
    reveal_strlit("--release");
    reveal_strlit("-Z");
    reveal_strlit("--zig-release-small");
    reveal_strlit("--trace");
    reveal_strlit("--");
    assert("--target"@.len() == 8 && "-target"@.len() == 7 && "zirild"@.len() == 6);
    assert("-ndkfallback"@.len() == 12 && "--release"@.len() == 9 && "-Z"@.len() == 2);
    assert("--zig-release-small"@.len() == 19 && "--trace"@.len() == 7 && "--"@.len() == 2);
    assert("-target"@[1] == 't' && "--trace"@[1] == '-');
    lemma_find_char("--target"@, '=');
    lemma_find_char("-target"@, '=');
    assert(find_char("--target"@, '=') == 8);
    assert(find_char("-target"@, '=') == 7);
}

/// The step for the separator.
pub(crate) proof fn lemma_separator_step(state: ParseState, position: int)
    requires
        at_argument(state),
    ensures
        step(state, "--"@, position) == Ok::<ParseState, Seq<char>>(
            ParseState { passthrough: true, ..forwarding(state, position) },
        ),
{
    reveal_strlit("--target");
    reveal_strlit("zirild");
    reveal_strlit("-ndkfallback");
    reveal_strlit("--release");
    reveal_strlit("-Z");
    reveal_strlit("--zig-release-small");
    reveal_strlit("--trace");
    reveal_strlit("--");
    assert("--target"@.len() == 8 && "zirild"@.len() == 6);
    assert("-ndkfallback"@.len() == 12 && "--release"@.len() == 9 && "-Z"@.len() == 2);
    assert("--zig-release-small"@.len() == 19 && "--trace"@.len() == 7 && "--"@.len() == 2);
    assert("--"@[1] == '-' && "-Z"@[1] == 'Z');
    lemma_find_char("--"@, '=');
    assert(find_char("--"@, '=') == 2);
}

/// The positions from `from` on, `count` of them.
pub open spec fn positions_from(from: int, count: nat) -> Seq<int> {
    Seq::new(count, |i: int| from + i)
}

/// Behind the separator every argument is handed on.
pub(crate) proof fn lemma_scan_behind_separator(
    arguments: Seq<Seq<char>>,
    state: ParseState,
    from: nat,
    count: nat,
)
    requires
        from + count <= arguments.len(),
        scan(arguments, from) == Ok::<ParseState, Seq<char>>(state),
        state.passthrough,
    ensures
        scan(arguments, from + count) == Ok::<ParseState, Seq<char>>(
            ParseState {
                forwarded: state.forwarded + positions_from(from as int, count),
                ..state
            },
        ),
    decreases count,
{
    if count == 0 {
        assert(state.forwarded + positions_from(from as int, count) =~= state.forwarded);
    } else {
        lemma_scan_behind_separator(arguments, state, from, (count - 1) as nat);
        assert((state.forwarded + positions_from(from as int, (count - 1) as nat)).push(
            from + count - 1,
        ) =~= state.forwarded + positions_from(from as int, count));
    }
}

/// Everything from `--` on reaches Cargo as it is, and changes nothing else.
pub proof fn law_arguments_behind_separator_are_preserved(
    front: Seq<Seq<char>>,
    rest: Seq<Seq<char>>,
)
    requires
        scan(front, front.len()) matches Ok(state) && at_argument(state),
    ensures
        ({
            let tail = seq!["--"@] + rest;
            parse(front + tail) == match parse(front) {
                Ok(build) => Ok::<BuildSettings, Seq<char>>(
                    BuildSettings {
                        cargo_args: build.cargo_args + tail,
                        cargo_positions: build.cargo_positions + positions_from(
                            front.len() as int,
                            tail.len(),
                        ),
                        ..build
                    },
                ),
                Err(message) => Err(message),
            }
        }),
{
    let tail = seq!["--"@] + rest;
    let whole = front + tail;
    let state = scan(front, front.len())->Ok_0;
    let count = front.len();
    lemma_scan_prefix(front, whole, count);
    lemma_separator_step(state, count as int);
    assert(whole[count as int] == "--"@);
    let behind = ParseState { passthrough: true, ..forwarding(state, count as int) };
    assert(scan(whole, count + 1) == Ok::<ParseState, Seq<char>>(behind));
    lemma_scan_behind_separator(whole, behind, count + 1, rest.len());
    assert(behind.forwarded + positions_from(count as int + 1, rest.len()) =~= state.forwarded
        + positions_from(count as int, tail.len()));
    assert(whole.len() == count + 1 + rest.len());
    lemma_forwarded_in_order(front, count);
    let all = state.forwarded + positions_from(count as int, tail.len());
    assert(all.map_values(|position: int| whole[position]) =~= state.forwarded.map_values(
        |position: int| front[position],
    ) + tail) by {
        assert forall|i: int| 0 <= i < all.len() implies whole[#[trigger] all[i]]
            == (state.forwarded.map_values(|position: int| front[position]) + tail)[i] by {
            if i < state.forwarded.len() {
                assert(all[i] == state.forwarded[i]);
            } else {
                assert(all[i] == count + (i - state.forwarded.len()));
            }
        }
    }
}

/// A state with every forwarded position moved by one.
pub open spec fn shifted(state: ParseState) -> ParseState {
    ParseState { forwarded: state.forwarded.map_values(|position: int| position + 1), ..state }
}

proof fn lemma_shifted_step(state: ParseState, argument: Seq<char>, position: int)
    ensures
        step(shifted(state), argument, position + 1) == match step(state, argument, position) {
            Ok(next) => Ok::<ParseState, Seq<char>>(shifted(next)),
            Err(message) => Err(message),
        },
{
    assert(forwarding(shifted(state), position + 1).forwarded =~= shifted(
        forwarding(state, position),
    ).forwarded);
}

pub(crate) proof fn lemma_shifted_scan(arguments: Seq<Seq<char>>, count: nat)
    requires
        count <= arguments.len(),
    ensures
        scan(seq!["zirild"@] + arguments, count + 1) == match scan(arguments, count) {
            Ok(state) => Ok::<ParseState, Seq<char>>(shifted(state)),
            Err(message) => Err(message),
        },
    decreases count,
{
    let whole = seq!["zirild"@] + arguments;
    if count == 0 {
        assert(whole[0] == "zirild"@);
        assert(scan(whole, 0) == Ok::<ParseState, Seq<char>>(initial_state()));
        assert(shifted(initial_state()) =~= initial_state());
    } else {
        let before = (count - 1) as nat;
        lemma_shifted_scan(arguments, before);
        assert(whole[count as int] == arguments[count - 1]);
        if let Ok(state) = scan(arguments, before) {
            lemma_shifted_step(state, arguments[count - 1], count - 1);
        }
    }
}

/// Cargo starts an external subcommand with the subcommand's name as its first
/// argument. The name changes nothing but the positions of the others.
pub proof fn law_subcommand_name_is_skipped(arguments: Seq<Seq<char>>)
    ensures
        parse(seq!["zirild"@] + arguments) == match parse(arguments) {
            Ok(build) => Ok::<BuildSettings, Seq<char>>(
                BuildSettings {
                    cargo_positions: build.cargo_positions.map_values(
                        |position: int| position + 1,
                    ),
                    ..build
                },
            ),
            Err(message) => Err(message),
        },
{
    let whole = seq!["zirild"@] + arguments;
    lemma_shifted_scan(arguments, arguments.len());
    assert(whole.len() == arguments.len() + 1);
    if let Ok(state) = scan(arguments, arguments.len()) {
        lemma_forwarded_in_order(arguments, arguments.len());
        assert(shifted(state).forwarded.map_values(|position: int| whole[position])
            =~= state.forwarded.map_values(|position: int| arguments[position])) by {
            assert forall|i: int| 0 <= i < state.forwarded.len() implies #[trigger] whole[shifted(
                state,
            ).forwarded[i]] == arguments[state.forwarded[i]] by {
                assert(0 <= state.forwarded[i] < arguments.len());
            }
        }
    }
}

/// What every setting that was accepted keeps.
pub open spec fn sound_state(state: ParseState) -> bool {
    &&& state.optimize is Some ==> is_optimize_mode(state.optimize->0)
    &&& forall|i: int|
        0 <= i < state.android.cflags.len() ==> (#[trigger] state.android.cflags[i]).len() > 0
    &&& forall|i: int|
        0 <= i < state.android.link_args.len() ==> (#[trigger] state.android.link_args[i]).len() > 0
    &&& state.android.api_level is Some ==> state.android.api_level->0 > 0
}

proof fn lemma_sound(arguments: Seq<Seq<char>>, count: nat)
    ensures
        scan(arguments, count) matches Ok(state) ==> sound_state(state),
    decreases count,
{
    if count > 0 {
        lemma_sound(arguments, (count - 1) as nat);
    }
}

/// A command line that is accepted has an optimisation mode of Zig's, no empty
/// native flag, and an API level above zero where it has one.
pub proof fn law_accepted_build_is_sound(arguments: Seq<Seq<char>>)
    ensures
        parse(arguments) matches Ok(build) ==> {
            &&& is_optimize_mode(build.optimize)
            &&& forall|i: int|
                0 <= i < build.android.cflags.len() ==> (#[trigger] build.android.cflags[i]).len()
                    > 0
            &&& forall|i: int|
                0 <= i < build.android.link_args.len() ==> (
                #[trigger] build.android.link_args[i]).len() > 0
            &&& build.android.api_level is Some ==> build.android.api_level->0 > 0
        },
{
    lemma_sound(arguments, arguments.len());
}

/// For an Android target that is accepted, an ABI that was asked for is the
/// target's own, and the NDK is selected in one way at most.
pub proof fn law_accepted_android_build_agrees(arguments: Seq<Seq<char>>)
    ensures
        parse(arguments) matches Ok(build) ==> is_android(build.cargo_target) ==> {
            &&& build.android.abi is Some ==> build.android.abi == android_abi(build.cargo_target)
            &&& build.android.ndk_version is None || build.android.ndk_index is None
        },
{
}

proof fn lemma_no_target(arguments: Seq<Seq<char>>, count: nat)
    requires
        count <= arguments.len(),
        forall|i: int|
            0 <= i < arguments.len() ==> setting_of(#[trigger] arguments[i]) != Some(
                Setting::Target,
            ),
    ensures
        scan(arguments, count) matches Ok(state) ==> state.target is None,
    decreases count,
{
    if count > 0 {
        lemma_no_target(arguments, (count - 1) as nat);
    }
}

/// A command line on which no argument sets the target is refused.
pub proof fn law_target_is_required(arguments: Seq<Seq<char>>)
    requires
        forall|i: int|
            0 <= i < arguments.len() ==> setting_of(#[trigger] arguments[i]) != Some(
                Setting::Target,
            ),
    ensures
        parse(arguments) is Err,
{
    lemma_no_target(arguments, arguments.len());
}

/// A name without an equals sign, an equals sign and a value are told apart.
pub proof fn lemma_setting_parts(name: Seq<char>, value: Seq<char>)
    requires
        !name.contains('='),
    ensures
        find_char(name + seq!['='] + value, '=') == name.len(),
        name_part(name + seq!['='] + value) == name,
        value_part(name + seq!['='] + value) == value,
{
    let argument = name + seq!['='] + value;
    assert forall|i: int| 0 <= i < name.len() implies argument[i] != '=' by {
        assert(name.contains(name[i]));
    }
    lemma_find_char_is(argument, '=', name.len() as int);
    assert(argument.take(name.len() as int) =~= name);
    assert(argument.skip(name.len() as int + 1) =~= value);
}

/// A named mode stays while no other is named.
proof fn lemma_named_mode_stays(arguments: Seq<Seq<char>>, mode: Seq<char>, from: nat, count: nat)
    requires
        from + count <= arguments.len(),
        scan(arguments, from) matches Ok(state) && state.optimize == Some(mode),
        forall|i: int|
            from <= i < arguments.len() ==> setting_of(#[trigger] arguments[i]) != Some(
                Setting::Optimize,
            ),
    ensures
        scan(arguments, from + count) matches Ok(state) ==> state.optimize == Some(mode),
    decreases count,
{
    if count > 0 {
        lemma_named_mode_stays(arguments, mode, from, (count - 1) as nat);
    }
}

/// The last optimisation mode that is asked for by name wins over `--release`
/// and over the flags for the small mode, wherever those stand.
pub proof fn law_named_mode_wins(
    front: Seq<Seq<char>>,
    name: Seq<char>,
    mode: Seq<char>,
    rest: Seq<Seq<char>>,
)
    requires
        name == "-ZigOptimize"@ || name == "--zig-opt"@,
        is_optimize_mode(mode),
        scan(front, front.len()) matches Ok(state) && at_argument(state),
        forall|i: int|
            0 <= i < rest.len() ==> setting_of(#[trigger] rest[i]) != Some(Setting::Optimize),
    ensures
        parse(front.push(name + seq!['='] + mode) + rest) matches Ok(build) ==> build.optimize
            == mode && build.optimize_chosen,
{
    let argument = name + seq!['='] + mode;
    let whole = front.push(argument) + rest;
    let state = scan(front, front.len())->Ok_0;
    reveal_strlit("-ZigOptimize");
    reveal_strlit("--zig-opt");
    reveal_strlit("--target");
    reveal_strlit("-target");
    reveal_strlit("zirild");
    assert("-ZigOptimize"@.len() == 12 && "--zig-opt"@.len() == 9);
    assert("--target"@.len() == 8 && "-target"@.len() == 7);
    lemma_setting_parts(name, mode);
    assert(argument[name.len() as int] == '=');
    assert(argument != "zirild"@);
    assert(argument != "--target"@);
    lemma_scan_prefix(front, whole, front.len());
    assert(whole[front.len() as int] == argument);
    assert(setting_of(argument) == Some(Setting::Optimize));
    assert(!is_asm_target(state, argument));
    let after = front.len() + 1;
    assert(scan(whole, after) == step(state, argument, front.len() as int));
    assert forall|i: int| after <= i < whole.len() implies setting_of(#[trigger] whole[i]) != Some(
        Setting::Optimize,
    ) by {
        assert(whole[i] == rest[i - after]);
    }
    lemma_named_mode_stays(whole, mode, after, rest.len());
    assert(whole.len() == after + rest.len());
}

/// An API level means the same with `android-` in front of it and without.
pub proof fn law_api_level_spellings_agree(previous: Option<u32>, value: Seq<char>)
    requires
        !"android-"@.is_prefix_of(value),
    ensures
        requested_api_level(previous, "android-"@ + value) == requested_api_level(previous, value),
{
    let long = "android-"@ + value;
    assert(long.take("android-"@.len() as int) =~= "android-"@);
    assert(long.skip("android-"@.len() as int) =~= value);
}

/// Asking for two API levels is refused, unless they are the same.
pub proof fn law_api_levels_have_to_agree(previous: u32, value: Seq<char>)
    ensures
        requested_api_level(Some(previous), value) matches Ok(level) ==> level == previous,
{
}

} // verus!
