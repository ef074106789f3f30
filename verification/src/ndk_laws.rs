//! What holds of the selection of an NDK.

use vstd::prelude::*;

use crate::decimal::{digit_char, law_numeral_reads_back, numeral, parsed};
use crate::ndk::{
    comes_before, compiler_stem, first_named, host_tag, is_named, law_newest_first_orders_all,
    lemma_older_asymmetric, name_keys, newest_first, newest_names, older, piece_value, selected,
    selection_refusal, shown_names, version_key, Host, NameText,
};
use crate::options::AndroidSettings;
use crate::target_laws::law_android_has_four_triples;
use crate::text::{joined, law_join_then_split};
use crate::text_laws::{law_numbers_are_digits, law_pieces_end_at_separators};

verus! {

// ---------------------------------------------------------------------------
// Versions

/// Versions are compared number by number: the first one in which they differ
/// decides, as a number and not as a text.
pub proof fn law_first_difference_decides(a: Seq<nat>, b: Seq<nat>, at: int)
    requires
        0 <= at < a.len(),
        at < b.len(),
        forall|i: int| 0 <= i < at ==> a[i] == b[i],
        a[at] < b[at],
    ensures
        older(a, b),
        !older(b, a),
    decreases at,
{
    if at > 0 {
        let x = a.drop_first();
        let y = b.drop_first();
        assert(a[0] == b[0]);
        assert forall|i: int| 0 <= i < at - 1 implies x[i] == y[i] by {
            assert(x[i] == a[i + 1] && y[i] == b[i + 1]);
        }
        law_first_difference_decides(x, y, at - 1);
    }
}

/// A version is older than one that goes on where it ends.
pub proof fn law_longer_version_is_newer(a: Seq<nat>, more: Seq<nat>)
    requires
        more.len() > 0,
    ensures
        older(a, a + more),
        !older(a + more, a),
    decreases a.len(),
{
    if a.len() > 0 {
        law_longer_version_is_newer(a.drop_first(), more);
        assert((a + more).drop_first() =~= a.drop_first() + more);
        assert((a + more)[0] == a[0]);
    }
}

/// Numbers as they are written.
pub open spec fn numerals(list: Seq<nat>) -> Seq<Seq<char>> {
    list.map_values(|number: nat| numeral(number))
}

proof fn lemma_numeral_has_no_point(value: nat)
    ensures
        !numeral(value).contains('.'),
    decreases value,
{
    assert forall|i: int| 0 <= i < numeral(value).len() implies numeral(value)[i] != '.' by {
        if value >= 10 {
            lemma_numeral_has_no_point(value / 10);
            if i < numeral(value / 10).len() {
                assert(numeral(value / 10).contains(numeral(value / 10)[i]));
            } else {
                assert(numeral(value)[i] == digit_char(value % 10));
            }
        }
    }
}

/// A directory that is named by numbers with points between them stands for
/// the version with those numbers, as far as they are within 32 bits.
pub proof fn law_version_name_reads_back(list: Seq<nat>)
    requires
        list.len() > 0,
        forall|i: int| 0 <= i < list.len() ==> #[trigger] list[i] <= u32::MAX,
    ensures
        version_key(joined(numerals(list), seq!['.'])) == list,
{
    let written = numerals(list);
    assert forall|i: int| 0 <= i < written.len() implies !(#[trigger] written[i]).contains('.') by {
        lemma_numeral_has_no_point(list[i]);
    }
    law_join_then_split(written, '.');
    assert forall|i: int| 0 <= i < list.len() implies piece_value(#[trigger] written[i])
        == list[i] by {
        law_numeral_reads_back(list[i], u32::MAX as nat);
    }
    assert(version_key(joined(written, seq!['.'])) =~= list);
}

// ---------------------------------------------------------------------------
// Selection

/// Without a selection the NDK at index zero is used.
pub proof fn law_default_is_index_zero(names: Seq<NameText>, settings: AndroidSettings)
    requires
        settings.ndk_version is None,
        settings.ndk_index is None,
    ensures
        selected(names, settings) == selected(
            names,
            (AndroidSettings { ndk_index: Some(0), ..settings }),
        ),
{
}

/// Without a selection an NDK is found where there is one, and none of the
/// others is newer.
pub proof fn law_default_is_the_newest(names: Seq<NameText>, settings: AndroidSettings)
    requires
        settings.ndk_version is None,
        settings.ndk_index is None,
    ensures
        match selected(names, settings) {
            Some(position) => {
                &&& 0 <= position < names.len()
                &&& forall|other: int|
                    0 <= other < names.len() ==> !older(
                        name_keys(names)[position],
                        #[trigger] name_keys(names)[other],
                    )
            },
            None => names.len() == 0,
        },
{
    let keys = name_keys(names);
    let order = newest_first(keys);
    law_newest_first_orders_all(keys);
    if names.len() > 0 {
        let position = order[0];
        assert forall|other: int| 0 <= other < names.len() implies !older(
            keys[position],
            #[trigger] keys[other],
        ) by {
            assert(order.contains(other));
            let at = choose|at: int| 0 <= at < order.len() && order[at] == other;
            if at > 0 {
                assert(comes_before(keys, order[0], order[at]));
                lemma_not_older(keys, position, other);
            } else {
                lemma_not_older_itself(keys[position]);
            }
        }
    }
}

proof fn lemma_not_older_itself(key: Seq<nat>)
    ensures
        !older(key, key),
    decreases key.len(),
{
    if key.len() > 0 {
        lemma_not_older_itself(key.drop_first());
    }
}

proof fn lemma_not_older(keys: Seq<Seq<nat>>, i: int, j: int)
    requires
        comes_before(keys, i, j),
    ensures
        !older(keys[i], keys[j]),
{
    if older(keys[j], keys[i]) {
        lemma_older_asymmetric(keys[j], keys[i]);
    } else {
        lemma_not_older_itself(keys[i]);
    }
}

/// An index selects an NDK exactly if there are more NDKs than the index says.
/// Different indices select different NDKs, and the higher index none that is
/// newer.
pub proof fn law_indices_go_from_new_to_old(
    names: Seq<NameText>,
    settings: AndroidSettings,
    low: usize,
    high: usize,
)
    requires
        settings.ndk_version is None,
        low < high,
    ensures
        selected(names, (AndroidSettings { ndk_index: Some(high), ..settings })) is Some <==> high
            < names.len(),
        high < names.len() ==> {
            let first = selected(names, (AndroidSettings { ndk_index: Some(low), ..settings }))->0;
            let second = selected(names, (AndroidSettings { ndk_index: Some(high), ..settings }))->0;
            &&& 0 <= first < names.len()
            &&& 0 <= second < names.len()
            &&& first != second
            &&& !older(name_keys(names)[first], name_keys(names)[second])
        },
{
    let keys = name_keys(names);
    let order = newest_first(keys);
    law_newest_first_orders_all(keys);
    if high < names.len() {
        assert(comes_before(keys, order[low as int], order[high as int]));
        lemma_not_older(keys, order[low as int], order[high as int]);
        lemma_not_older_itself(keys[order[low as int]]);
    }
}

proof fn lemma_first_named(order: Seq<int>, names: Seq<NameText>, version: Seq<char>)
    ensures
        match first_named(order, names, version) {
            Some(position) => order.contains(position) && is_named(names[position], version),
            None => forall|a: int|
                0 <= a < order.len() ==> !is_named(names[#[trigger] order[a]], version),
        },
    decreases order.len(),
{
    if order.len() > 0 && !is_named(names[order[0]], version) {
        let rest = order.drop_first();
        lemma_first_named(rest, names, version);
        match first_named(rest, names, version) {
            Some(position) => {
                let a = choose|a: int| 0 <= a < rest.len() && rest[a] == position;
                assert(order[a + 1] == position);
            },
            None => {
                assert forall|a: int| 0 <= a < order.len() implies !is_named(
                    names[#[trigger] order[a]],
                    version,
                ) by {
                    if a > 0 {
                        assert(rest[a - 1] == order[a]);
                    }
                }
            },
        }
    }
}

/// A version selects an NDK of exactly that name, and none exactly if there is
/// no such NDK.
pub proof fn law_version_selects_by_name(names: Seq<NameText>, settings: AndroidSettings)
    requires
        settings.ndk_version is Some,
    ensures
        match selected(names, settings) {
            Some(position) => {
                &&& 0 <= position < names.len()
                &&& is_named(names[position], settings.ndk_version->0)
            },
            None => forall|position: int|
                0 <= position < names.len() ==> !is_named(
                    #[trigger] names[position],
                    settings.ndk_version->0,
                ),
        },
{
    let version = settings.ndk_version->0;
    let keys = name_keys(names);
    let order = newest_first(keys);
    law_newest_first_orders_all(keys);
    lemma_first_named(order, names, version);
    if first_named(order, names, version) is None {
        assert forall|position: int| 0 <= position < names.len() implies !is_named(
            #[trigger] names[position],
            version,
        ) by {
            assert(order.contains(position));
            let a = choose|a: int| 0 <= a < order.len() && order[a] == position;
            assert(!is_named(names[order[a]], version));
        }
    }
}

proof fn lemma_unicode_names_are_shown(names: Seq<NameText>)
    requires
        forall|i: int| 0 <= i < names.len() ==> (#[trigger] names[i]) is Unicode,
    ensures
        shown_names(names) == names.map_values(|name: NameText| name->Unicode_0),
    decreases names.len(),
{
    reveal(Seq::filter_map);
    if names.len() > 0 {
        let front = names.drop_last();
        assert forall|i: int| 0 <= i < front.len() implies (#[trigger] front[i]) is Unicode by {
            assert(front[i] == names[i]);
        }
        lemma_unicode_names_are_shown(front);
        assert(names.last() is Unicode);
    }
    assert(shown_names(names) =~= names.map_values(|name: NameText| name->Unicode_0));
}

/// The list that refuses an index counts as indices do: the name at a place of
/// it is that of the NDK which the place selects. Left out are names that are no
/// Unicode text, which cannot be shown.
pub proof fn law_listed_names_follow_the_index(
    names: Seq<NameText>,
    settings: AndroidSettings,
    index: usize,
)
    requires
        forall|i: int| 0 <= i < names.len() ==> (#[trigger] names[i]) is Unicode,
        settings.ndk_version is None,
        index < names.len(),
    ensures
        ({
            let listed = shown_names(newest_names(names));
            let chosen = selected(names, (AndroidSettings { ndk_index: Some(index), ..settings }));
            &&& listed.len() == names.len()
            &&& chosen is Some
            &&& names[chosen->0] == NameText::Unicode(listed[index as int])
        }),
{
    let keys = name_keys(names);
    let order = newest_first(keys);
    let ordered = newest_names(names);
    law_newest_first_orders_all(keys);
    assert forall|i: int| 0 <= i < ordered.len() implies (#[trigger] ordered[i]) is Unicode by {
        assert(0 <= order[i] < names.len());
        assert(names[order[i]] is Unicode);
    }
    lemma_unicode_names_are_shown(ordered);
    assert(ordered[index as int] == names[order[index as int]]);
}

// ---------------------------------------------------------------------------
// Names and order, said of the texts

/// Whether a directory's name, with what is no Unicode text replaced, is a text.
pub open spec fn reads_as(name: NameText, text: Seq<char>) -> bool {
    name == NameText::Unicode(text) || name == NameText::Lossy(text)
}

/// A version selects a directory whose name is that text, character by
/// character. None is selected exactly if no directory has that name.
pub proof fn law_version_is_the_name_exactly(
    names: Seq<NameText>,
    settings: AndroidSettings,
    version: Seq<char>,
)
    requires
        settings.ndk_version == Some(version),
    ensures
        match selected(names, settings) {
            Some(position) => 0 <= position < names.len() && reads_as(names[position], version),
            None => forall|position: int|
                0 <= position < names.len() ==> !reads_as(#[trigger] names[position], version),
        },
{
    law_version_selects_by_name(names, settings);
    if selected(names, settings) is None {
        assert forall|position: int| 0 <= position < names.len() implies !reads_as(
            #[trigger] names[position],
            version,
        ) by {
            assert(!is_named(names[position], version));
        }
    }
}

/// Which NDK a version selects does not depend on the index, and which one an
/// index selects not on the other settings.
pub proof fn law_selection_goes_by_the_selector_alone(
    names: Seq<NameText>,
    one: AndroidSettings,
    other: AndroidSettings,
)
    requires
        one.ndk_version == other.ndk_version,
        one.ndk_version is None ==> one.ndk_index == other.ndk_index,
    ensures
        selected(names, one) == selected(names, other),
{
}

/// The newest-first order holds every position once. Of two, the one in front is
/// the newer version, or the same version and the one that was found first.
pub proof fn law_newest_first_in_words(keys: Seq<Seq<nat>>, a: int, b: int)
    requires
        0 <= a < b < keys.len(),
    ensures
        ({
            let order = newest_first(keys);
            &&& order.len() == keys.len()
            &&& 0 <= order[a] < keys.len() && 0 <= order[b] < keys.len()
            &&& order[a] != order[b]
            &&& older(keys[order[b]], keys[order[a]]) || (keys[order[a]] == keys[order[b]]
                && order[a] < order[b])
        }),
{
    let order = newest_first(keys);
    law_newest_first_orders_all(keys);
    assert(comes_before(keys, order[a], order[b]));
    lemma_not_older_itself(keys[order[a]]);
}

/// A version is its pieces between points, each as the number that it is or as
/// zero.
pub proof fn law_version_pieces_are_numbers(pieces: Seq<Seq<char>>, i: int)
    requires
        0 <= i < pieces.len(),
        forall|k: int| 0 <= k < pieces.len() ==> !(#[trigger] pieces[k]).contains('.'),
    ensures
        ({
            let key = version_key(joined(pieces, seq!['.']));
            &&& key.len() == pieces.len()
            &&& parsed(pieces[i], 0xffff_ffff) matches Some(value) ==> key[i] == value
            &&& parsed(pieces[i], 0xffff_ffff) is None ==> key[i] == 0
        }),
{
    law_join_then_split(pieces, '.');
}

/// A directory goes by the version that its name is; a name that is no Unicode
/// text, or none, is the version zero.
pub proof fn law_directories_go_by_their_names(names: Seq<NameText>, i: int)
    requires
        0 <= i < names.len(),
    ensures
        name_keys(names).len() == names.len(),
        names[i] matches NameText::Unicode(name) ==> name_keys(names)[i] == version_key(name),
        !(names[i] is Unicode) ==> name_keys(names)[i] == seq![0nat],
{
    let none: Seq<char> = seq![];
    law_pieces_end_at_separators(none, '.', none);
    law_numbers_are_digits(none, u32::MAX as nat);
    assert(version_key(none) =~= seq![0nat]);
}

/// The tools of an NDK are those for the host: Windows and Linux have one kind
/// whatever their processor is, and macOS has two.
pub proof fn law_tools_are_for_the_host(host: Host)
    ensures
        host.windows ==> host_tag(host) == "windows-x86_64"@,
        !host.windows && !host.macos ==> host_tag(host) == "linux-x86_64"@,
        !host.windows && host.macos && host.aarch64 ==> host_tag(host) == "darwin-arm64"@,
        !host.windows && host.macos && !host.aarch64 ==> host_tag(host) == "darwin-x86_64"@,
{
}

/// The compilers of an NDK are named by the target and the API level that was
/// asked for, whichever it is, and by the target's own level if none was.
pub proof fn law_compilers_are_named_by_the_level(level: u32)
    ensures
        compiler_stem("aarch64-linux-android"@, Some(level)) == Some(
            "aarch64-linux-android"@ + numeral(level as nat),
        ),
        compiler_stem("armv7-linux-androideabi"@, Some(level)) == Some(
            "armv7a-linux-androideabi"@ + numeral(level as nat),
        ),
        compiler_stem("i686-linux-android"@, Some(level)) == Some(
            "i686-linux-android"@ + numeral(level as nat),
        ),
        compiler_stem("x86_64-linux-android"@, Some(level)) == Some(
            "x86_64-linux-android"@ + numeral(level as nat),
        ),
        compiler_stem("aarch64-linux-android"@, None) == Some(
            "aarch64-linux-android"@ + numeral(21),
        ),
        compiler_stem("armv7-linux-androideabi"@, None) == Some(
            "armv7a-linux-androideabi"@ + numeral(16),
        ),
        compiler_stem("i686-linux-android"@, None) == Some("i686-linux-android"@ + numeral(16)),
        compiler_stem("x86_64-linux-android"@, None) == Some(
            "x86_64-linux-android"@ + numeral(21),
        ),
{
    law_android_has_four_triples("aarch64-linux-android"@);
    law_android_has_four_triples("armv7-linux-androideabi"@);
    law_android_has_four_triples("i686-linux-android"@);
    law_android_has_four_triples("x86_64-linux-android"@);
    reveal_strlit("aarch64-linux-android");
    reveal_strlit("armv7-linux-androideabi");
    reveal_strlit("i686-linux-android");
    reveal_strlit("x86_64-linux-android");
    assert("aarch64-linux-android"@[1] == 'a' && "armv7-linux-androideabi"@[1] == 'r');
    assert("i686-linux-android"@[1] == '6' && "x86_64-linux-android"@[1] == '8');
}

/// Of the names found, those that are Unicode are listed, in their order.
pub proof fn law_readable_names_are_listed(names: Seq<NameText>, name: NameText)
    ensures
        shown_names(Seq::empty()) == Seq::<Seq<char>>::empty(),
        name matches NameText::Unicode(text) ==> shown_names(names.push(name)) == shown_names(
            names,
        ).push(text),
        !(name is Unicode) ==> shown_names(names.push(name)) == shown_names(names),
{
    reveal(Seq::filter_map);
    assert(names.push(name).drop_last() =~= names);
    assert(names.push(name).last() == name);
}

/// What is said where no NDK is selected: which versions there are, in the order
/// that they were found in for a version, and newest first for an index.
pub proof fn law_refused_selection_lists_the_versions(
    names: Seq<NameText>,
    settings: AndroidSettings,
    source: Seq<char>,
    home: Seq<char>,
)
    ensures
        ({
            let said = selection_refusal(names, settings, source, home);
            let place = " below "@ + source + " '"@ + home + "'"@;
            &&& settings.ndk_version matches Some(version) ==> said == "NDK version '"@ + version
                + "' was not found"@ + place + "; available versions: "@ + joined(
                shown_names(names),
                ", "@,
            )
            &&& settings.ndk_version is None && settings.ndk_index is Some ==> said
                == "NDK index "@ + numeral(settings.ndk_index->0 as nat) + " is out of range"@
                + place + "; newest-first versions: "@ + joined(
                shown_names(newest_names(names)),
                ", "@,
            )
            &&& settings.ndk_version is None && settings.ndk_index is None ==> said == source
                + " '"@ + home + "'"@
                + " is not an NDK and contains no NDK version with toolchains/llvm/prebuilt"@
        }),
{
    reveal_strlit(" below ");
    reveal_strlit("'");
    reveal_strlit("' was not found");
    reveal_strlit("' was not found below ");
    reveal_strlit("; available versions: ");
    reveal_strlit("'; available versions: ");
    reveal_strlit(" is out of range");
    reveal_strlit(" is out of range below ");
    reveal_strlit("; newest-first versions: ");
    reveal_strlit("'; newest-first versions: ");
    reveal_strlit(" is not an NDK and contains no NDK version with toolchains/llvm/prebuilt");
    reveal_strlit("' is not an NDK and contains no NDK version with toolchains/llvm/prebuilt");
    assert("' was not found below "@ =~= "' was not found"@ + " below "@);
    assert("'; available versions: "@ =~= "'"@ + "; available versions: "@);
    assert(" is out of range below "@ =~= " is out of range"@ + " below "@);
    assert("'; newest-first versions: "@ =~= "'"@ + "; newest-first versions: "@);
    assert("' is not an NDK and contains no NDK version with toolchains/llvm/prebuilt"@ =~= "'"@
        + " is not an NDK and contains no NDK version with toolchains/llvm/prebuilt"@);
    let said = selection_refusal(names, settings, source, home);
    let place = " below "@ + source + " '"@ + home + "'"@;
    if let Some(version) = settings.ndk_version {
        assert(said =~= "NDK version '"@ + version + "' was not found"@ + place
            + "; available versions: "@ + joined(shown_names(names), ", "@));
    } else if let Some(index) = settings.ndk_index {
        assert(said =~= "NDK index "@ + numeral(index as nat) + " is out of range"@ + place
            + "; newest-first versions: "@ + joined(shown_names(newest_names(names)), ", "@));
    } else {
        assert(said =~= source + " '"@ + home + "'"@
            + " is not an NDK and contains no NDK version with toolchains/llvm/prebuilt"@);
    }
}

} // verus!
