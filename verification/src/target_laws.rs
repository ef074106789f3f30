//! Which spelling of a target becomes which.

use vstd::prelude::*;

use crate::target::{
    android_abi, android_prefix, cargo_target, is_android, is_msvc, is_windows_gnu, links_windows,
    musl_target, zig_target,
};
use crate::text::{
    contains, find, joined, law_join_then_split, law_split_then_join, lemma_find,
    lemma_joined_from_front, lemma_split_pieces, lowered, split,
};

verus! {

/// Two pieces of a target.
pub open spec fn two(a: Seq<char>, b: Seq<char>) -> Seq<char> {
    a + seq!['-'] + b
}

/// Three pieces of a target.
pub open spec fn three(a: Seq<char>, b: Seq<char>, c: Seq<char>) -> Seq<char> {
    a + seq!['-'] + b + seq!['-'] + c
}

/// Four pieces of a target.
pub open spec fn four(a: Seq<char>, b: Seq<char>, c: Seq<char>, d: Seq<char>) -> Seq<char> {
    a + seq!['-'] + b + seq!['-'] + c + seq!['-'] + d
}

proof fn lemma_joined_three(a: Seq<char>, b: Seq<char>, c: Seq<char>)
    ensures
        joined(seq![a, b, c], seq!['-']) == three(a, b, c),
{
    let h = seq!['-'];
    assert(joined(seq![c], h) == c);
    lemma_joined_from_front(b, seq![c], h);
    assert(seq![b] + seq![c] =~= seq![b, c]);
    lemma_joined_from_front(a, seq![b, c], h);
    assert(seq![a] + seq![b, c] =~= seq![a, b, c]);
    assert(a + h + (b + h + c) =~= three(a, b, c));
}

proof fn lemma_joined_four(a: Seq<char>, b: Seq<char>, c: Seq<char>, d: Seq<char>)
    ensures
        joined(seq![a, b, c, d], seq!['-']) == four(a, b, c, d),
{
    let h = seq!['-'];
    lemma_joined_three(b, c, d);
    lemma_joined_from_front(a, seq![b, c, d], h);
    assert(seq![a] + seq![b, c, d] =~= seq![a, b, c, d]);
    assert(a + h + three(b, c, d) =~= four(a, b, c, d));
}

proof fn lemma_split_three(a: Seq<char>, b: Seq<char>, c: Seq<char>)
    requires
        !a.contains('-'),
        !b.contains('-'),
        !c.contains('-'),
    ensures
        split(three(a, b, c), '-') == seq![a, b, c],
{
    lemma_joined_three(a, b, c);
    law_join_then_split(seq![a, b, c], '-');
}

proof fn lemma_split_four(a: Seq<char>, b: Seq<char>, c: Seq<char>, d: Seq<char>)
    requires
        !a.contains('-'),
        !b.contains('-'),
        !c.contains('-'),
        !d.contains('-'),
    ensures
        split(four(a, b, c, d), '-') == seq![a, b, c, d],
{
    lemma_joined_four(a, b, c, d);
    law_join_then_split(seq![a, b, c, d], '-');
}

/// The words of targets differ and hold no hyphen.
proof fn lemma_target_words()
    ensures
        !"linux"@.contains('-') && !"windows"@.contains('-') && !"macos"@.contains('-'),
        !"pc"@.contains('-') && !"unknown"@.contains('-') && !"apple"@.contains('-'),
        !"darwin"@.contains('-') && !"android"@.contains('-') && !"androideabi"@.contains('-'),
        "linux"@ != "windows"@ && "linux"@ != "macos"@ && "linux"@ != "pc"@,
        "windows"@ != "macos"@ && "windows"@ != "pc"@ && "macos"@ != "pc"@,
        "apple"@ != "linux"@ && "apple"@ != "windows"@ && "apple"@ != "macos"@ && "apple"@ != "pc"@,
        "unknown"@ != "pc"@ && "unknown"@ != "apple"@ && "android"@ != "androideabi"@,
{
    reveal_strlit("linux");
    reveal_strlit("windows");
    reveal_strlit("macos");
    reveal_strlit("pc");
    reveal_strlit("unknown");
    reveal_strlit("apple");
    reveal_strlit("darwin");
    reveal_strlit("android");
    reveal_strlit("androideabi");
    assert("linux"@[0] == 'l' && "windows"@[0] == 'w' && "macos"@[0] == 'm' && "pc"@[0] == 'p');
    assert("unknown"@[0] == 'u' && "apple"@[0] == 'a');
    assert("android"@.len() == 7 && "androideabi"@.len() == 11);
}

// ---------------------------------------------------------------------------
// To Rust triples

/// A Linux target of Zig's is the Rust triple with `unknown` for the vendor,
/// whatever its architecture and its ABI, but for Android's.
pub proof fn law_linux_becomes_unknown_linux(architecture: Seq<char>, abi: Seq<char>)
    requires
        !architecture.contains('-'),
        !abi.contains('-'),
        abi != "android"@ && abi != "androideabi"@,
    ensures
        cargo_target(three(architecture, "linux"@, abi)) == four(
            architecture,
            "unknown"@,
            "linux"@,
            abi,
        ),
{
    lemma_target_words();
    lemma_split_three(architecture, "linux"@, abi);
    lemma_joined_four(architecture, "unknown"@, "linux"@, abi);
}

/// A Windows target of Zig's is the Rust triple with `pc` for the vendor,
/// whatever its architecture and its ABI.
pub proof fn law_windows_becomes_pc_windows(architecture: Seq<char>, abi: Seq<char>)
    requires
        !architecture.contains('-'),
        !abi.contains('-'),
    ensures
        cargo_target(three(architecture, "windows"@, abi)) == four(
            architecture,
            "pc"@,
            "windows"@,
            abi,
        ),
{
    lemma_target_words();
    lemma_split_three(architecture, "windows"@, abi);
    lemma_joined_four(architecture, "pc"@, "windows"@, abi);
}

/// A Windows target without an ABI is MSVC's, whatever its architecture, for
/// Cargo and for Zig.
pub proof fn law_short_windows_is_msvc(architecture: Seq<char>)
    requires
        !architecture.contains('-'),
    ensures
        cargo_target(three(architecture, "pc"@, "windows"@)) == four(
            architecture,
            "pc"@,
            "windows"@,
            "msvc"@,
        ),
        zig_target(three(architecture, "pc"@, "windows"@)) == three(
            architecture,
            "windows"@,
            "msvc"@,
        ),
{
    lemma_target_words();
    lemma_split_three(architecture, "pc"@, "windows"@);
    lemma_joined_four(architecture, "pc"@, "windows"@, "msvc"@);
    lemma_joined_three(architecture, "windows"@, "msvc"@);
}

/// A macOS target of Zig's is Apple's Darwin to Rust, whatever its architecture
/// and its ABI.
pub proof fn law_macos_becomes_darwin(architecture: Seq<char>, abi: Seq<char>)
    requires
        !architecture.contains('-'),
        !abi.contains('-'),
    ensures
        cargo_target(three(architecture, "macos"@, abi)) == three(
            architecture,
            "apple"@,
            "darwin"@,
        ),
{
    lemma_target_words();
    lemma_split_three(architecture, "macos"@, abi);
    lemma_joined_three(architecture, "apple"@, "darwin"@);
}

/// Android's targets are their own Rust triples, but for 32-bit ARM, which Rust
/// knows as one triple with an ABI of its own.
pub proof fn law_android_keeps_its_triple(architecture: Seq<char>)
    requires
        !architecture.contains('-'),
    ensures
        cargo_target(three(architecture, "linux"@, "android"@)) == if architecture == "arm"@
            || architecture == "armv7"@ {
            three("armv7"@, "linux"@, "androideabi"@)
        } else {
            three(architecture, "linux"@, "android"@)
        },
        cargo_target(three(architecture, "linux"@, "androideabi"@)) == three(
            architecture,
            "linux"@,
            "androideabi"@,
        ),
{
    lemma_target_words();
    lemma_split_three(architecture, "linux"@, "android"@);
    lemma_split_three(architecture, "linux"@, "androideabi"@);
    lemma_joined_three(architecture, "linux"@, "android"@);
    lemma_joined_three(architecture, "linux"@, "androideabi"@);
    lemma_joined_three("armv7"@, "linux"@, "androideabi"@);
}

/// Whether a target has three pieces of which the second is one of Zig's names
/// for an operating system, or is a Windows target without an ABI.
pub open spec fn is_converted(target: Seq<char>) -> bool {
    exists|a: Seq<char>, b: Seq<char>, c: Seq<char>|
        {
            &&& target == #[trigger] three(a, b, c)
            &&& !a.contains('-') && !b.contains('-') && !c.contains('-')
            &&& b == "linux"@ || b == "windows"@ || b == "macos"@ || (b == "pc"@ && c
                == "windows"@)
        }
}

/// Every other target is a Rust triple as it is.
pub proof fn law_other_targets_stay(target: Seq<char>)
    requires
        !is_converted(target),
    ensures
        cargo_target(target) == target,
{
    let pieces = split(target, '-');
    law_split_then_join(target, '-');
    lemma_split_pieces(target, '-');
    if pieces.len() == 3 {
        assert(pieces =~= seq![pieces[0], pieces[1], pieces[2]]);
        lemma_joined_three(pieces[0], pieces[1], pieces[2]);
        assert(!pieces[0].contains('-') && !pieces[1].contains('-') && !pieces[2].contains('-'));
        assert(target == three(pieces[0], pieces[1], pieces[2]));
    }
}

// ---------------------------------------------------------------------------
// To Zig's spelling

/// A Rust triple for Linux is spelled without its vendor for Zig, whatever its
/// architecture and its ABI.
pub proof fn law_zig_leaves_out_the_linux_vendor(architecture: Seq<char>, abi: Seq<char>)
    requires
        !architecture.contains('-'),
        !abi.contains('-'),
    ensures
        zig_target(four(architecture, "unknown"@, "linux"@, abi)) == three(
            architecture,
            "linux"@,
            abi,
        ),
{
    lemma_target_words();
    lemma_split_four(architecture, "unknown"@, "linux"@, abi);
    lemma_joined_three(architecture, "linux"@, abi);
}

/// A Rust triple for Windows is spelled without its vendor for Zig, whatever its
/// architecture and its ABI.
pub proof fn law_zig_leaves_out_the_windows_vendor(architecture: Seq<char>, abi: Seq<char>)
    requires
        !architecture.contains('-'),
        !abi.contains('-'),
    ensures
        zig_target(four(architecture, "pc"@, "windows"@, abi)) == three(
            architecture,
            "windows"@,
            abi,
        ),
{
    lemma_target_words();
    lemma_split_four(architecture, "pc"@, "windows"@, abi);
    lemma_joined_three(architecture, "windows"@, abi);
}

/// Apple's Darwin is macOS to Zig, whatever its architecture.
pub proof fn law_zig_calls_darwin_macos(architecture: Seq<char>)
    requires
        !architecture.contains('-'),
    ensures
        zig_target(three(architecture, "apple"@, "darwin"@)) == three(
            architecture,
            "macos"@,
            "none"@,
        ),
{
    lemma_target_words();
    lemma_split_three(architecture, "apple"@, "darwin"@);
    lemma_joined_three(architecture, "macos"@, "none"@);
}

/// Whether a target is a Rust triple that Zig spells in another way.
pub open spec fn is_respelled(target: Seq<char>) -> bool {
    ||| exists|a: Seq<char>, b: Seq<char>, c: Seq<char>|
        {
            &&& target == #[trigger] three(a, b, c)
            &&& !a.contains('-')
            &&& (b == "pc"@ && c == "windows"@) || (b == "apple"@ && c == "darwin"@)
        }
    ||| exists|a: Seq<char>, b: Seq<char>, c: Seq<char>, d: Seq<char>|
        {
            &&& target == #[trigger] four(a, b, c, d)
            &&& !a.contains('-') && !d.contains('-')
            &&& (b == "unknown"@ && c == "linux"@) || (b == "pc"@ && c == "windows"@)
        }
}

/// Zig is given every other target as it is.
pub proof fn law_zig_is_given_other_targets_as_they_are(target: Seq<char>)
    requires
        !is_respelled(target),
    ensures
        zig_target(target) == target,
{
    let pieces = split(target, '-');
    law_split_then_join(target, '-');
    lemma_split_pieces(target, '-');
    if pieces.len() == 3 {
        assert(pieces =~= seq![pieces[0], pieces[1], pieces[2]]);
        lemma_joined_three(pieces[0], pieces[1], pieces[2]);
        assert(!pieces[0].contains('-'));
        assert(target == three(pieces[0], pieces[1], pieces[2]));
    } else if pieces.len() == 4 {
        assert(pieces =~= seq![pieces[0], pieces[1], pieces[2], pieces[3]]);
        lemma_joined_four(pieces[0], pieces[1], pieces[2], pieces[3]);
        assert(!pieces[0].contains('-') && !pieces[3].contains('-'));
        assert(target == four(pieces[0], pieces[1], pieces[2], pieces[3]));
    }
}

// ---------------------------------------------------------------------------
// Kinds of targets

/// The Android targets are four triples, each with an ABI, the start of its
/// compilers' names, and the API level that it is taken for.
pub proof fn law_android_has_four_triples(triple: Seq<char>)
    ensures
        is_android(triple) ==> {
            ||| triple == "aarch64-linux-android"@ && android_abi(triple) == Some("arm64-v8a"@)
                && android_prefix(triple) == Some(("aarch64-linux-android"@, 21nat))
            ||| triple == "armv7-linux-androideabi"@ && android_abi(triple) == Some(
                "armeabi-v7a"@,
            ) && android_prefix(triple) == Some(("armv7a-linux-androideabi"@, 16nat))
            ||| triple == "i686-linux-android"@ && android_abi(triple) == Some("x86"@)
                && android_prefix(triple) == Some(("i686-linux-android"@, 16nat))
            ||| triple == "x86_64-linux-android"@ && android_abi(triple) == Some("x86_64"@)
                && android_prefix(triple) == Some(("x86_64-linux-android"@, 21nat))
        },
        !is_android(triple) ==> {
            &&& triple != "aarch64-linux-android"@ && triple != "armv7-linux-androideabi"@
            &&& triple != "i686-linux-android"@ && triple != "x86_64-linux-android"@
            &&& android_abi(triple) is None && android_prefix(triple) is None
        },
{
    reveal_strlit("aarch64-linux-android");
    reveal_strlit("armv7-linux-androideabi");
    reveal_strlit("i686-linux-android");
    reveal_strlit("x86_64-linux-android");
    assert("aarch64-linux-android"@[1] == 'a' && "armv7-linux-androideabi"@[1] == 'r');
    assert("i686-linux-android"@[1] == '6' && "x86_64-linux-android"@[1] == '8');
}

proof fn lemma_suffix(text: Seq<char>, end: Seq<char>)
    ensures
        end.is_suffix_of(text) <==> exists|front: Seq<char>| text == #[trigger] (front + end),
{
    if end.is_suffix_of(text) {
        let front = text.take(text.len() - end.len());
        assert(text =~= front + end);
    }
    if exists|front: Seq<char>| text == #[trigger] (front + end) {
        let front = choose|front: Seq<char>| text == #[trigger] (front + end);
        assert(text.skip(text.len() - end.len()) =~= end);
    }
}

/// A triple is MSVC's or Windows GNU's by what it ends with, whatever stands in
/// front of that.
pub proof fn law_families_go_by_the_end(triple: Seq<char>)
    ensures
        is_msvc(triple) <==> exists|front: Seq<char>| triple == #[trigger] (front + "-msvc"@),
        is_windows_gnu(triple) <==> exists|front: Seq<char>|
            triple == #[trigger] (front + "-windows-gnu"@),
{
    lemma_suffix(triple, "-msvc"@);
    lemma_suffix(triple, "-windows-gnu"@);
}

/// A part stands in a text exactly if the text is something, the part, and
/// something more.
pub proof fn law_part_stands_between(text: Seq<char>, part: Seq<char>)
    ensures
        contains(text, part) <==> exists|front: Seq<char>, rest: Seq<char>|
            text == #[trigger] (front + part + rest),
{
    lemma_find(text, part);
    match find(text, part) {
        Some(at) => {
            let front = text.take(at);
            let rest = text.skip(at + part.len());
            assert(text.skip(at).take(part.len() as int) == part);
            assert(text =~= front + part + rest) by {
                assert forall|i: int| 0 <= i < part.len() implies text[at + i] == part[i] by {
                    assert(text.skip(at).take(part.len() as int)[i] == text[at + i]);
                }
            }
        },
        None => {
            if exists|front: Seq<char>, rest: Seq<char>| text == #[trigger] (front + part + rest) {
                let (front, rest) = choose|front: Seq<char>, rest: Seq<char>|
                    text == #[trigger] (front + part + rest);
                let k = front.len() as int;
                assert(text.skip(k).take(part.len() as int) =~= part);
                assert(part.is_prefix_of(text.skip(k)));
            }
        },
    }
}

/// Zig links for Windows where `windows` is a piece of the target between two
/// others, in whatever case it is written.
pub proof fn law_windows_link_by_the_target(spelling: Seq<char>)
    ensures
        links_windows(spelling) <==> exists|front: Seq<char>, rest: Seq<char>|
            lowered(spelling) == #[trigger] (front + "-windows-"@ + rest),
{
    law_part_stands_between(lowered(spelling), "-windows-"@);
}

/// A target that names no Android has no musl target of its own.
pub proof fn law_musl_target_is_for_android(spelling: Seq<char>)
    requires
        !(exists|front: Seq<char>, rest: Seq<char>|
            spelling == #[trigger] (front + "-android"@ + rest)),
    ensures
        musl_target(spelling) == spelling,
{
    law_part_stands_between(spelling, "-android"@);
}

} // verus!
