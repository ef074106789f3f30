//! What holds of every command that a wrapper runs.

use vstd::prelude::*;

use crate::erratum::{is_erratum_argument, plain_line};
use crate::invocation::{
    as_arguments, command_line, compiles, handed_on, overrides_optimize, rewrite_for, setup,
    text_if, treatment, zig_frontend, ArgumentText, ResponseRewrite, Treatment, WrapperRules,
    WrapperVariables,
};
use crate::musl::{is_startup_argument, musl_line};
use crate::response::{line_value, windows_link_line};
use crate::response_laws::{
    law_erratum_leaves_every_response, lemma_image_base_is_no_runtime, lemma_no_definition,
    lemma_runtime_is_no_erratum,
};
use crate::windows::{is_image_base_argument, is_runtime_argument};
use crate::wrapper::{optimize_flag, WrapperMode};

verus! {

// ---------------------------------------------------------------------------
// Arguments in general

/// Whether an entry is what one of the arguments from `from` on becomes.
spec fn is_outcome(
    rules: WrapperRules,
    arguments: Seq<Seq<char>>,
    from: int,
    entry: ArgumentText,
) -> bool {
    match entry {
        ArgumentText::Original(i) => from <= i < arguments.len() && treatment(
            rules,
            arguments[i],
        ) is Keep,
        ArgumentText::Text(text) => exists|i: int|
            #![trigger arguments[i]]
            from <= i < arguments.len() && treatment(rules, arguments[i]) == Treatment::Replace(
                text,
            ),
    }
}

/// What becomes of the arguments from `from` on, entry by entry.
proof fn lemma_handed_on(rules: WrapperRules, arguments: Seq<Seq<char>>, from: int)
    requires
        0 <= from,
    ensures
        forall|k: int|
            0 <= k < handed_on(rules, arguments, from).len() ==> is_outcome(
                rules,
                arguments,
                from,
                #[trigger] handed_on(rules, arguments, from)[k],
            ),
    decreases arguments.len() + 1 - from,
{
    if from < arguments.len() {
        lemma_handed_on(rules, arguments, from + 1);
        lemma_handed_on(rules, arguments, from + 2);
        let all = handed_on(rules, arguments, from);
        assert forall|k: int| 0 <= k < all.len() implies is_outcome(
            rules,
            arguments,
            from,
            #[trigger] all[k],
        ) by {
            let (rest, skipped, shift) = match treatment(rules, arguments[from]) {
                Treatment::Keep => (handed_on(rules, arguments, from + 1), from + 1, 1int),
                Treatment::Replace(_) => (handed_on(rules, arguments, from + 1), from + 1, 1int),
                Treatment::Drop => (handed_on(rules, arguments, from + 1), from + 1, 0int),
                Treatment::DropWithValue => (handed_on(rules, arguments, from + 2), from + 2, 0int),
            };
            if k >= shift {
                assert(all[k] == rest[k - shift]);
                assert(is_outcome(rules, arguments, skipped, rest[k - shift]));
            } else {
                assert(treatment(rules, arguments[from]) is Keep || treatment(
                    rules,
                    arguments[from],
                ) is Replace);
            }
        }
    }
}

/// The arguments that a wrapper hands on as they are come in the order that it
/// was given them in, each once at most.
pub proof fn law_arguments_keep_their_order(
    rules: WrapperRules,
    arguments: Seq<Seq<char>>,
    from: int,
)
    requires
        0 <= from,
    ensures
        ({
            let list = handed_on(rules, arguments, from);
            forall|k: int, l: int|
                0 <= k < l < list.len() && (#[trigger] list[k]) is Original && (
                #[trigger] list[l]) is Original ==> list[k]->Original_0 < list[l]->Original_0
        }),
    decreases arguments.len() + 1 - from,
{
    if from < arguments.len() {
        law_arguments_keep_their_order(rules, arguments, from + 1);
        law_arguments_keep_their_order(rules, arguments, from + 2);
        lemma_handed_on(rules, arguments, from + 1);
        let all = handed_on(rules, arguments, from);
        let next = handed_on(rules, arguments, from + 1);
        if treatment(rules, arguments[from]) is Keep || treatment(
            rules,
            arguments[from],
        ) is Replace {
            assert forall|k: int| 0 < k < all.len() implies all[k] == next[k - 1] by {}
        }
    }
}

/// An argument that stays is handed on, if no argument takes another one with
/// it.
proof fn lemma_kept_is_handed_on(
    rules: WrapperRules,
    arguments: Seq<Seq<char>>,
    from: int,
    i: int,
)
    requires
        0 <= from <= i < arguments.len(),
        treatment(rules, arguments[i]) is Keep,
        forall|j: int|
            0 <= j < arguments.len() ==> !(treatment(
                rules,
                #[trigger] arguments[j],
            ) is DropWithValue),
    ensures
        handed_on(rules, arguments, from).contains(ArgumentText::Original(i)),
    decreases arguments.len() - from,
{
    let all = handed_on(rules, arguments, from);
    assert(!(treatment(rules, arguments[from]) is DropWithValue));
    if from == i {
        assert(all[0] == ArgumentText::Original(i));
    } else {
        lemma_kept_is_handed_on(rules, arguments, from + 1, i);
        let next = handed_on(rules, arguments, from + 1);
        let k = choose|k: int| 0 <= k < next.len() && next[k] == ArgumentText::Original(i);
        if treatment(rules, arguments[from]) is Drop {
            assert(all[k] == ArgumentText::Original(i));
        } else {
            assert(all[k + 1] == ArgumentText::Original(i));
        }
    }
}

/// A wrapper for a linker or an archiver leaves out what it has a rule for and
/// hands on everything else.
pub proof fn law_nothing_else_is_left_out(
    rules: WrapperRules,
    arguments: Seq<Seq<char>>,
    i: int,
)
    requires
        rules.mode == WrapperMode::Linker || rules.mode == WrapperMode::Ar,
        0 <= i < arguments.len(),
    ensures
        handed_on(rules, arguments, 0).contains(ArgumentText::Original(i)) <==> treatment(
            rules,
            arguments[i],
        ) is Keep,
{
    if treatment(rules, arguments[i]) is Keep {
        lemma_kept_is_handed_on(rules, arguments, 0, i);
    }
    lemma_handed_on(rules, arguments, 0);
    let all = handed_on(rules, arguments, 0);
    if all.contains(ArgumentText::Original(i)) {
        let k = choose|k: int| 0 <= k < all.len() && all[k] == ArgumentText::Original(i);
        assert(all[k] is Original);
    }
}

/// The positions from `from` on, as arguments that are handed on.
pub open spec fn all_from(from: int, count: nat) -> Seq<ArgumentText> {
    Seq::new(count, |i: int| ArgumentText::Original(from + i))
}

proof fn lemma_all_handed_on(rules: WrapperRules, arguments: Seq<Seq<char>>, from: int)
    requires
        0 <= from <= arguments.len(),
        forall|j: int|
            0 <= j < arguments.len() ==> treatment(rules, #[trigger] arguments[j]) is Keep,
    ensures
        handed_on(rules, arguments, from) == all_from(from, (arguments.len() - from) as nat),
    decreases arguments.len() - from,
{
    if from < arguments.len() {
        lemma_all_handed_on(rules, arguments, from + 1);
        assert(treatment(rules, arguments[from]) is Keep);
    }
    assert(handed_on(rules, arguments, from) =~= all_from(
        from,
        (arguments.len() - from) as nat,
    ));
}

/// A wrapper for an archiver hands on all that it was given.
pub proof fn law_archiver_hands_on_everything(
    variables: WrapperVariables,
    arguments: Seq<Seq<char>>,
)
    ensures
        setup(WrapperMode::Ar, variables) matches Ok(start) ==> {
            &&& handed_on(start.rules, arguments, 0) == all_from(0, arguments.len())
            &&& start.trailing.len() == 0
        },
{
    if let Ok(start) = setup(WrapperMode::Ar, variables) {
        lemma_all_handed_on(start.rules, arguments, 0);
        assert(start.trailing =~= seq![]);
    }
}

// ---------------------------------------------------------------------------
// Compilers

/// Whether none of the arguments that are handed on as they are is dropped by
/// a test.
spec fn none_handed_on(
    rules: WrapperRules,
    arguments: Seq<Seq<char>>,
    test: spec_fn(Seq<char>) -> bool,
) -> bool {
    forall|i: int|
        0 <= i < arguments.len() && test(#[trigger] arguments[i]) ==> !handed_on(
            rules,
            arguments,
            0,
        ).contains(ArgumentText::Original(i))
}

proof fn lemma_none_handed_on(
    rules: WrapperRules,
    arguments: Seq<Seq<char>>,
    test: spec_fn(Seq<char>) -> bool,
)
    requires
        forall|argument: Seq<char>|
            #[trigger] test(argument) ==> !(treatment(rules, argument) is Keep),
    ensures
        none_handed_on(rules, arguments, test),
{
    let all = handed_on(rules, arguments, 0);
    lemma_handed_on(rules, arguments, 0);
    assert forall|i: int| 0 <= i < arguments.len() && test(#[trigger] arguments[i]) implies !(
    all.contains(ArgumentText::Original(i))) by {
        if all.contains(ArgumentText::Original(i)) {
            let k = choose|k: int| 0 <= k < all.len() && all[k] == ArgumentText::Original(i);
            assert(all[k] is Original);
        }
    }
}

/// An optimisation mode that the command line chose decides how C and C++ are
/// compiled: the wrapper hands on no optimisation flag of the build script's,
/// and ends with its own.
pub proof fn law_chosen_mode_overrides_build_scripts(
    mode: WrapperMode,
    variables: WrapperVariables,
    arguments: Seq<Seq<char>>,
)
    requires
        compiles(mode),
        variables.optimize_chosen,
    ensures
        setup(mode, variables) matches Ok(start) ==> {
            let line = command_line(start, arguments);
            &&& line.len() > 0
            &&& line.last() == ArgumentText::Text(optimize_flag(variables.optimize->0)->0)
            &&& forall|i: int|
                0 <= i < arguments.len() && "-O"@.is_prefix_of(#[trigger] arguments[i])
                    ==> !handed_on(start.rules, arguments, 0).contains(ArgumentText::Original(i))
        },
{
    if let Ok(start) = setup(mode, variables) {
        let flag = optimize_flag(variables.optimize->0)->0;
        let test = |argument: Seq<char>| "-O"@.is_prefix_of(argument);
        lemma_none_handed_on(start.rules, arguments, test);
        assert forall|i: int|
            0 <= i < arguments.len() && "-O"@.is_prefix_of(#[trigger] arguments[i]) implies !(
        handed_on(start.rules, arguments, 0).contains(ArgumentText::Original(i))) by {
            assert(test(arguments[i]));
        }
        assert(start.trailing =~= seq![flag]);
        assert(as_arguments(start.trailing).last() == ArgumentText::Text(flag));
    }
}

/// Without a mode that the command line chose, the optimisation flags of build
/// scripts are handed on, behind the wrapper's own, so that they decide.
pub proof fn law_build_scripts_optimize_by_default(
    mode: WrapperMode,
    variables: WrapperVariables,
    argument: Seq<char>,
)
    requires
        compiles(mode),
        !variables.optimize_chosen,
        "-O"@.is_prefix_of(argument),
    ensures
        setup(mode, variables) matches Ok(start) ==> {
            &&& treatment(start.rules, argument) is Keep
            &&& start.leading.contains(optimize_flag(variables.optimize->0)->0)
            &&& start.trailing.len() == 0
        },
{
    if let Ok(start) = setup(mode, variables) {
        let target = variables.zig_target->0;
        let flag = optimize_flag(variables.optimize->0)->0;
        reveal_strlit("-O");
        reveal_strlit("--target");
        reveal_strlit("--target=");
        reveal_strlit("--temp-prefix");
        assert("-O"@[1] == 'O' && "--target"@[1] == '-' && "--target="@[1] == '-');
        assert(argument.take(2)[1] == argument[1]);
        if "--target="@.is_prefix_of(argument) {
            assert(argument.take(9)[1] == argument[1]);
        }
        assert(start.trailing =~= seq![]);
        let frontend = if variables.ndk_fallback {
            seq![]
        } else {
            zig_frontend(mode, target)
        };
        assert(start.leading[frontend.len() as int] == flag);
    }
}

/// A compiler of Zig's is told its target by the wrapper alone.
pub proof fn law_zig_compiles_for_the_chosen_target(
    mode: WrapperMode,
    variables: WrapperVariables,
    arguments: Seq<Seq<char>>,
)
    requires
        compiles(mode),
        !variables.ndk_fallback,
    ensures
        setup(mode, variables) matches Ok(start) ==> {
            &&& start.leading.len() > 3
            &&& start.leading[1] == "-target"@
            &&& start.leading[2] == variables.zig_target->0
            &&& start.leading.contains("-fno-sanitize=undefined"@)
            &&& forall|i: int|
                0 <= i < arguments.len() && (#[trigger] arguments[i] == "--target"@
                    || "--target="@.is_prefix_of(arguments[i])) ==> !handed_on(
                    start.rules,
                    arguments,
                    0,
                ).contains(ArgumentText::Original(i))
        },
{
    if let Ok(start) = setup(mode, variables) {
        let test = |argument: Seq<char>|
            argument == "--target"@ || "--target="@.is_prefix_of(argument);
        lemma_none_handed_on(start.rules, arguments, test);
        assert forall|i: int|
            0 <= i < arguments.len() && (#[trigger] arguments[i] == "--target"@
                || "--target="@.is_prefix_of(arguments[i])) implies !(handed_on(
            start.rules,
            arguments,
            0,
        ).contains(ArgumentText::Original(i))) by {
            assert(test(arguments[i]));
        }
        let at: int = if overrides_optimize(start.rules) {
            3
        } else {
            4
        };
        assert(start.leading[at] == "-fno-sanitize=undefined"@);
    }
}

// ---------------------------------------------------------------------------
// Linkers

/// What becomes of a line of a response file that a wrapper is given.
pub open spec fn response_line(
    rules: WrapperRules,
    line: Seq<char>,
    directories: Seq<Seq<(Seq<char>, Seq<char>)>>,
    copies: Seq<(Seq<char>, Seq<char>)>,
) -> Option<Seq<char>> {
    match rewrite_for(rules) {
        ResponseRewrite::Windows => windows_link_line(
            line,
            directories,
            copies,
            rules.keep_runtime,
            rules.ndk_fallback,
        ),
        ResponseRewrite::Musl => musl_line(line),
        ResponseRewrite::Plain => plain_line(line),
        ResponseRewrite::Nothing => Some(line),
    }
}

/// A link for neither Windows nor musl leaves out two arguments alone: the one
/// that keeps the linker from adding libraries of its own, and the switch for
/// an erratum that Zig refuses and the NDK's linker takes. Its response files
/// lose the switch alone.
pub proof fn law_plain_link_drops_two_arguments(
    rules: WrapperRules,
    argument: Seq<char>,
    line: Seq<char>,
    directories: Seq<Seq<(Seq<char>, Seq<char>)>>,
    copies: Seq<(Seq<char>, Seq<char>)>,
)
    requires
        rules.mode == WrapperMode::Linker,
        !rules.windows,
        !rules.musl,
    ensures
        treatment(rules, argument) == if argument == "-nodefaultlibs"@ || (!rules.ndk_fallback
            && is_erratum_argument(argument)) {
            Treatment::Drop
        } else {
            Treatment::Keep
        },
        response_line(rules, line, directories, copies) == if !rules.ndk_fallback
            && is_erratum_argument(line_value(line)) {
            None
        } else {
            Some(line)
        },
{
}

/// No link through Zig gets the switch for the erratum, neither as an argument
/// nor through a response file.
pub proof fn law_zig_links_get_no_erratum_switch(
    rules: WrapperRules,
    argument: Seq<char>,
    line: Seq<char>,
    directories: Seq<Seq<(Seq<char>, Seq<char>)>>,
    copies: Seq<(Seq<char>, Seq<char>)>,
)
    requires
        rules.mode == WrapperMode::Linker,
        !rules.ndk_fallback,
        is_erratum_argument(argument),
        is_erratum_argument(line_value(line)),
    ensures
        treatment(rules, argument) is Drop,
        response_line(rules, line, directories, copies) is None,
{
    law_erratum_leaves_every_response(line, directories, copies, rules.keep_runtime);
}

/// A link for Windows with Zig's runtime gets none that rustc asks for, and the
/// unwinder that belongs to Zig's at its end. A link that keeps rustc's runtime
/// gets it as rustc asks for it. Neither gets an image-base switch.
pub proof fn law_windows_link_has_one_runtime(
    variables: WrapperVariables,
    arguments: Seq<Seq<char>>,
    i: int,
)
    requires
        0 <= i < arguments.len(),
    ensures
        setup(WrapperMode::Linker, variables) matches Ok(start) ==> start.rules.windows ==> {
            let given = ArgumentText::Original(i);
            let list = handed_on(start.rules, arguments, 0);
            &&& is_image_base_argument(arguments[i]) ==> !list.contains(given)
            &&& !start.rules.musl && is_runtime_argument(arguments[i]) ==> (list.contains(given)
                <==> start.rules.keep_runtime)
            &&& start.trailing == text_if(!start.rules.keep_runtime, "-lunwind"@)
        },
{
    if let Ok(start) = setup(WrapperMode::Linker, variables) {
        law_nothing_else_is_left_out(start.rules, arguments, i);
        if is_runtime_argument(arguments[i]) {
            lemma_no_definition(arguments[i]);
            lemma_runtime_is_nothing_else(arguments[i]);
        }
        assert(start.trailing =~= text_if(
            start.rules.windows && !start.rules.keep_runtime,
            "-lunwind"@,
        ));
    }
}

proof fn lemma_runtime_is_nothing_else(argument: Seq<char>)
    requires
        is_runtime_argument(argument),
    ensures
        !is_erratum_argument(argument),
        !is_image_base_argument(argument),
{
    if is_image_base_argument(argument) {
        lemma_image_base_is_no_runtime(argument);
    }
    lemma_runtime_is_no_erratum(argument);
}

/// A link for musl through Zig gets none of the startup objects that rustc
/// ships, which Zig's own would collide with.
pub proof fn law_musl_link_has_one_startup(
    variables: WrapperVariables,
    arguments: Seq<Seq<char>>,
    i: int,
)
    requires
        0 <= i < arguments.len(),
        is_startup_argument(arguments[i]),
    ensures
        setup(WrapperMode::Linker, variables) matches Ok(start) ==> start.rules.musl ==> !handed_on(
            start.rules,
            arguments,
            0,
        ).contains(ArgumentText::Original(i)),
{
    if let Ok(start) = setup(WrapperMode::Linker, variables) {
        law_nothing_else_is_left_out(start.rules, arguments, i);
    }
}

/// A link for musl hands on every object that is none of rustc's startup
/// objects, wherever it lies.
pub proof fn law_musl_link_keeps_other_objects(
    variables: WrapperVariables,
    arguments: Seq<Seq<char>>,
    i: int,
)
    requires
        0 <= i < arguments.len(),
        ".o"@.is_suffix_of(arguments[i]),
        !is_startup_argument(arguments[i]),
    ensures
        setup(WrapperMode::Linker, variables) matches Ok(start) ==> start.rules.musl
            ==> !start.rules.windows ==> handed_on(start.rules, arguments, 0).contains(
            ArgumentText::Original(i),
        ),
{
    if let Ok(start) = setup(WrapperMode::Linker, variables) {
        let argument = arguments[i];
        law_nothing_else_is_left_out(start.rules, arguments, i);
        reveal_strlit(".o");
        reveal_strlit("-nodefaultlibs");
        reveal_strlit("-Wl,--fix-cortex-a53-843419");
        assert(argument.skip(argument.len() - 2)[1] == argument.last());
        assert("-nodefaultlibs"@.last() == 's' && "-Wl,--fix-cortex-a53-843419"@.last() == '9');
    }
}

} // verus!
