//! Target spellings: Zig targets, Rust triples and the Android ABIs.

use vstd::prelude::*;
use vstd::string::StringExecFns;

use crate::text::{
    contains, ends_with, find, join, joined, law_join_then_split, law_split_then_join, lemma_find,
    lemma_find_is, lemma_split_pieces, lowered, position_of, same, split, split_at_char,
    text_before, texts, to_lowered,
};

verus! {

/// The pieces of the Rust triple for the pieces of a target in Zig's spelling.
/// Pieces that are no such spelling are a Rust triple already and stay.
pub open spec fn cargo_pieces(pieces: Seq<Seq<char>>) -> Seq<Seq<char>> {
    if pieces.len() != 3 {
        pieces
    } else if pieces[1] == "linux"@ && pieces[2] == "androideabi"@ {
        pieces
    } else if pieces[1] == "linux"@ && pieces[2] == "android"@ {
        if pieces[0] == "arm"@ || pieces[0] == "armv7"@ {
            seq!["armv7"@, "linux"@, "androideabi"@]
        } else {
            pieces
        }
    } else if pieces[1] == "linux"@ {
        seq![pieces[0], "unknown"@, "linux"@, pieces[2]]
    } else if pieces[1] == "pc"@ && pieces[2] == "windows"@ {
        seq![pieces[0], "pc"@, "windows"@, "msvc"@]
    } else if pieces[1] == "windows"@ {
        seq![pieces[0], "pc"@, "windows"@, pieces[2]]
    } else if pieces[1] == "macos"@ {
        seq![pieces[0], "apple"@, "darwin"@]
    } else {
        pieces
    }
}

/// The Rust triple for a target.
pub open spec fn cargo_target(target: Seq<char>) -> Seq<char> {
    joined(cargo_pieces(split(target, '-')), seq!['-'])
}

/// The pieces of Zig's spelling for the pieces of a Rust triple.
pub open spec fn zig_pieces(pieces: Seq<Seq<char>>) -> Seq<Seq<char>> {
    if pieces.len() == 4 && pieces[1] == "unknown"@ && pieces[2] == "linux"@ {
        seq![pieces[0], "linux"@, pieces[3]]
    } else if pieces.len() == 3 && pieces[1] == "pc"@ && pieces[2] == "windows"@ {
        seq![pieces[0], "windows"@, "msvc"@]
    } else if pieces.len() == 4 && pieces[1] == "pc"@ && pieces[2] == "windows"@ {
        seq![pieces[0], "windows"@, pieces[3]]
    } else if pieces.len() == 3 && pieces[1] == "apple"@ && pieces[2] == "darwin"@ {
        seq![pieces[0], "macos"@, "none"@]
    } else {
        pieces
    }
}

/// Zig's spelling of a target.
pub open spec fn zig_target(target: Seq<char>) -> Seq<char> {
    joined(zig_pieces(split(target, '-')), seq!['-'])
}

/// The pieces joined by hyphens.
fn hyphenated(pieces: &Vec<String>) -> (target: String)
    ensures
        target@ == joined(texts(pieces@), seq!['-']),
{
    proof {
        reveal_strlit("-");
        assert("-"@ =~= seq!['-']);
    }
    join(pieces, "-")
}

/// The Rust triple that `cargo --target` needs for a target. Rust triples are
/// kept as they are.
pub fn cargo_target_for(target: &str) -> (triple: String)
    ensures
        triple@ == cargo_target(target@),
{
    let mut pieces = split_at_char(target, '-');
    let ghost before = texts(pieces@);
    if pieces.len() == 3 {
        let system = pieces[1].clone();
        let abi = pieces[2].clone();
        if same(system.as_str(), "linux") {
            if same(abi.as_str(), "androideabi") {
            } else if same(abi.as_str(), "android") {
                if same(pieces[0].as_str(), "arm") || same(pieces[0].as_str(), "armv7") {
                    pieces = vec!["armv7".to_owned(), "linux".to_owned(), "androideabi".to_owned()];
                }
            } else {
                pieces.insert(1, "unknown".to_owned());
            }
        } else if same(system.as_str(), "pc") && same(abi.as_str(), "windows") {
            pieces.push("msvc".to_owned());
        } else if same(system.as_str(), "windows") {
            pieces.insert(1, "pc".to_owned());
        } else if same(system.as_str(), "macos") {
            let architecture = pieces[0].clone();
            pieces = vec![architecture, "apple".to_owned(), "darwin".to_owned()];
        }
        assert(before =~= seq![before[0], before[1], before[2]]);
    }
    assert(texts(pieces@) =~= cargo_pieces(before));
    hyphenated(&pieces)
}

/// Zig's spelling of a target, for its C, C++ and linker frontends.
pub fn zig_target_for(target: &str) -> (spelling: String)
    ensures
        spelling@ == zig_target(target@),
{
    let mut pieces = split_at_char(target, '-');
    let ghost before = texts(pieces@);
    if pieces.len() == 4 {
        if same(pieces[1].as_str(), "unknown") && same(pieces[2].as_str(), "linux") {
            pieces.remove(1);
        } else if same(pieces[1].as_str(), "pc") && same(pieces[2].as_str(), "windows") {
            pieces.remove(1);
        }
    } else if pieces.len() == 3 {
        if same(pieces[1].as_str(), "pc") && same(pieces[2].as_str(), "windows") {
            pieces.remove(1);
            pieces.push("msvc".to_owned());
        } else if same(pieces[1].as_str(), "apple") && same(pieces[2].as_str(), "darwin") {
            let architecture = pieces[0].clone();
            pieces = vec![architecture, "macos".to_owned(), "none".to_owned()];
        }
    }
    assert(texts(pieces@) =~= zig_pieces(before));
    hyphenated(&pieces)
}

/// Whether a Rust triple is one of the supported Android targets.
pub open spec fn is_android(triple: Seq<char>) -> bool {
    ||| triple == "aarch64-linux-android"@
    ||| triple == "armv7-linux-androideabi"@
    ||| triple == "i686-linux-android"@
    ||| triple == "x86_64-linux-android"@
}

/// The Android ABI of an Android target.
pub open spec fn android_abi(triple: Seq<char>) -> Option<Seq<char>> {
    if triple == "aarch64-linux-android"@ {
        Some("arm64-v8a"@)
    } else if triple == "armv7-linux-androideabi"@ {
        Some("armeabi-v7a"@)
    } else if triple == "i686-linux-android"@ {
        Some("x86"@)
    } else if triple == "x86_64-linux-android"@ {
        Some("x86_64"@)
    } else {
        None
    }
}

/// What the names of the NDK's compilers for an Android target start with, and
/// the API level that they are taken for when none is asked for.
pub open spec fn android_prefix(triple: Seq<char>) -> Option<(Seq<char>, nat)> {
    if triple == "aarch64-linux-android"@ {
        Some(("aarch64-linux-android"@, 21))
    } else if triple == "armv7-linux-androideabi"@ {
        Some(("armv7a-linux-androideabi"@, 16))
    } else if triple == "i686-linux-android"@ {
        Some(("i686-linux-android"@, 16))
    } else if triple == "x86_64-linux-android"@ {
        Some(("x86_64-linux-android"@, 21))
    } else {
        None
    }
}

/// Whether a Rust triple is one of the supported Android targets.
pub fn is_android_target(target: &str) -> (android: bool)
    ensures
        android == is_android(target@),
{
    same(target, "aarch64-linux-android") || same(target, "armv7-linux-androideabi") || same(
        target,
        "i686-linux-android",
    ) || same(target, "x86_64-linux-android")
}

/// The Android ABI of an Android target.
pub fn android_abi_for_target(target: &str) -> (abi: Option<&'static str>)
    ensures
        match abi {
            Some(abi) => android_abi(target@) == Some(abi@),
            None => android_abi(target@) is None,
        },
{
    if same(target, "aarch64-linux-android") {
        Some("arm64-v8a")
    } else if same(target, "armv7-linux-androideabi") {
        Some("armeabi-v7a")
    } else if same(target, "i686-linux-android") {
        Some("x86")
    } else if same(target, "x86_64-linux-android") {
        Some("x86_64")
    } else {
        None
    }
}

/// The prefix of the NDK's compiler names for an Android target, with the API
/// level for which they are taken when none is asked for.
pub fn android_compiler_prefix(target: &str) -> (prefix: Result<(&'static str, u32), String>)
    ensures
        match prefix {
            Ok((prefix, api_level)) => android_prefix(target@) == Some(
                (prefix@, api_level as nat),
            ),
            Err(message) => {
                &&& android_prefix(target@) is None
                &&& message@ == "unsupported Android Rust target: "@ + target@
            },
        },
{
    if same(target, "aarch64-linux-android") {
        Ok(("aarch64-linux-android", 21))
    } else if same(target, "armv7-linux-androideabi") {
        Ok(("armv7a-linux-androideabi", 16))
    } else if same(target, "i686-linux-android") {
        Ok(("i686-linux-android", 16))
    } else if same(target, "x86_64-linux-android") {
        Ok(("x86_64-linux-android", 21))
    } else {
        let mut message = "unsupported Android Rust target: ".to_owned();
        message.append(target);
        Err(message)
    }
}

/// Whether a Rust triple is built with the system's MSVC tools.
pub open spec fn is_msvc(triple: Seq<char>) -> bool {
    "-msvc"@.is_suffix_of(triple)
}

/// Whether a Rust triple is built with the system's MSVC tools.
pub fn is_msvc_target(target: &str) -> (msvc: bool)
    ensures
        msvc == is_msvc(target@),
{
    ends_with(target, "-msvc")
}

/// Whether a Rust triple is a Windows target of the GNU family.
pub open spec fn is_windows_gnu(triple: Seq<char>) -> bool {
    "-windows-gnu"@.is_suffix_of(triple)
}

/// Whether a Rust triple is a Windows target of the GNU family.
pub fn is_windows_gnu_target(target: &str) -> (gnu: bool)
    ensures
        gnu == is_windows_gnu(target@),
{
    ends_with(target, "-windows-gnu")
}

/// Whether Zig links for Windows when it is given this target.
pub open spec fn links_windows(spelling: Seq<char>) -> bool {
    contains(lowered(spelling), "-windows-"@)
}

/// Whether Zig links for Windows when it is given this target.
pub fn is_windows_zig_target(spelling: &str) -> (windows: bool)
    ensures
        windows == links_windows(spelling@),
{
    let lower = to_lowered(spelling);
    position_of(lower.as_str(), "-windows-").is_some()
}

/// The musl target that stands in for an Android target in Zig's spelling: what
/// follows the first `-android`, that included, gives way to `-musl`.
pub open spec fn musl_target(spelling: Seq<char>) -> Seq<char> {
    match find(spelling, "-android"@) {
        Some(at) => spelling.take(at) + "-musl"@,
        None => spelling,
    }
}

/// The musl target that stands in for an Android target in Zig's spelling.
pub fn android_musl_target(zig_target: &str) -> (musl: String)
    ensures
        musl@ == musl_target(zig_target@),
{
    match position_of(zig_target, "-android") {
        Some(at) => {
            proof {
                lemma_find(zig_target@, "-android"@);
            }
            let mut musl = text_before(zig_target, at);
            musl.append("-musl");
            musl
        },
        None => zig_target.to_owned(),
    }
}

// ---------------------------------------------------------------------------
// Laws

/// None of the words that the spellings are made of holds a hyphen.
proof fn lemma_words()
    ensures
        !"linux"@.contains('-'),
        !"armv7"@.contains('-'),
        !"androideabi"@.contains('-'),
        !"unknown"@.contains('-'),
        !"pc"@.contains('-'),
        !"windows"@.contains('-'),
        !"msvc"@.contains('-'),
        !"apple"@.contains('-'),
        !"darwin"@.contains('-'),
        !"macos"@.contains('-'),
        !"none"@.contains('-'),
        "apple"@ != "linux"@,
        "apple"@ != "pc"@,
        "apple"@ != "windows"@,
        "apple"@ != "macos"@,
        "linux"@ != "pc"@,
        "linux"@ != "apple"@,
        "windows"@ != "pc"@,
        "windows"@ != "apple"@,
        "windows"@ != "unknown"@,
        "macos"@ != "pc"@,
        "macos"@ != "apple"@,
        "unknown"@ != "pc"@,
{
    reveal_strlit("linux");
    reveal_strlit("armv7");
    reveal_strlit("androideabi");
    reveal_strlit("unknown");
    reveal_strlit("pc");
    reveal_strlit("windows");
    reveal_strlit("msvc");
    reveal_strlit("apple");
    reveal_strlit("darwin");
    reveal_strlit("macos");
    reveal_strlit("none");
    assert("apple"@[0] != "linux"@[0]);
    assert("apple"@[0] != "macos"@[0]);
    assert("windows"@.len() != "pc"@.len());
    assert("windows"@[0] != "unknown"@[0]);
}

/// What is joined from the Rust pieces of a target splits into them again.
proof fn lemma_cargo_pieces(target: Seq<char>)
    ensures
        split(cargo_target(target), '-') == cargo_pieces(split(target, '-')),
{
    lemma_words();
    lemma_split_pieces(target, '-');
    let pieces = split(target, '-');
    let result = cargo_pieces(pieces);
    assert forall|i: int| 0 <= i < result.len() implies !(#[trigger] result[i]).contains('-') by {
        assert(i < pieces.len() ==> !pieces[i].contains('-'));
        assert(pieces.len() > 2 ==> !pieces[0].contains('-') && !pieces[2].contains('-'));
    }
    law_join_then_split(result, '-');
}

/// A Rust triple that a target was converted to is preserved by converting it
/// once more.
pub proof fn law_cargo_target_is_stable(target: Seq<char>)
    ensures
        cargo_target(cargo_target(target)) == cargo_target(target),
{
    lemma_words();
    lemma_cargo_pieces(target);
}

/// What is joined from the pieces of Zig's spelling splits into them again.
proof fn lemma_zig_pieces(target: Seq<char>)
    ensures
        split(zig_target(target), '-') == zig_pieces(split(target, '-')),
{
    lemma_words();
    lemma_split_pieces(target, '-');
    let pieces = split(target, '-');
    let result = zig_pieces(pieces);
    assert forall|i: int| 0 <= i < result.len() implies !(#[trigger] result[i]).contains('-') by {
        assert(i < pieces.len() ==> !pieces[i].contains('-'));
        assert(pieces.len() > 2 ==> !pieces[0].contains('-') && !pieces[2].contains('-'));
        assert(pieces.len() > 3 ==> !pieces[3].contains('-'));
    }
    law_join_then_split(result, '-');
}

/// Zig's spelling of a target is preserved by asking for it once more.
pub proof fn law_zig_target_is_stable(target: Seq<char>)
    ensures
        zig_target(zig_target(target)) == zig_target(target),
{
    lemma_words();
    lemma_zig_pieces(target);
}

/// A target in Zig's spelling, an architecture with one of its names for an
/// operating system and an ABI, is preserved.
pub proof fn law_zig_spelling_is_preserved(target: Seq<char>)
    requires
        ({
            let pieces = split(target, '-');
            pieces.len() == 3 && (pieces[1] == "linux"@ || pieces[1] == "windows"@ || pieces[1]
                == "macos"@)
        }),
    ensures
        zig_target(target) == target,
{
    lemma_words();
    law_split_then_join(target, '-');
}

/// A fully qualified triple, one of four pieces, is preserved.
pub proof fn law_four_piece_triple_is_preserved(target: Seq<char>)
    requires
        split(target, '-').len() == 4,
    ensures
        cargo_target(target) == target,
{
    law_split_then_join(target, '-');
}

/// Zig is given the same target whether the caller writes a target in Zig's
/// spelling or as the Rust triple that it is converted to. The two spellings
/// that the Rust triple cannot tell apart are left out: macOS with an ABI of
/// its own, and 32-bit ARM Android.
pub proof fn law_both_spellings_reach_zig_alike(target: Seq<char>)
    requires
        ({
            let pieces = split(target, '-');
            pieces.len() == 3 ==> {
                &&& pieces[1] == "macos"@ ==> pieces[2] == "none"@
                &&& pieces[1] == "linux"@ && pieces[2] == "android"@ ==> pieces[0] != "arm"@
                    && pieces[0] != "armv7"@
            }
        }),
    ensures
        zig_target(cargo_target(target)) == zig_target(target),
{
    lemma_words();
    lemma_cargo_pieces(target);
    let pieces = split(target, '-');
    assert(pieces.len() == 3 ==> pieces =~= seq![pieces[0], pieces[1], pieces[2]]);
}

/// A target is a supported Android target exactly if it has an Android ABI, and
/// exactly if the NDK has compilers for it.
pub proof fn law_android_tables_agree(triple: Seq<char>)
    ensures
        is_android(triple) <==> android_abi(triple) is Some,
        is_android(triple) <==> android_prefix(triple) is Some,
{
}

/// Where a part that does not repeat its first character stands behind a text
/// without it, that is its first occurrence.
proof fn lemma_find_behind(front: Seq<char>, part: Seq<char>, rest: Seq<char>)
    requires
        part.len() > 0,
        forall|j: int| 0 < j < part.len() ==> #[trigger] part[j] != part.first(),
        !contains(front, part),
    ensures
        find(front + part + rest, part) == Some(front.len() as int),
{
    let whole = front + part + rest;
    let size = part.len() as int;
    lemma_find(front, part);
    assert(whole.skip(front.len() as int).take(size) =~= part);
    assert forall|k: int| 0 <= k < front.len() implies !part.is_prefix_of(
        #[trigger] whole.skip(k),
    ) by {
        assert(!part.is_prefix_of(front.skip(k)));
        if part.is_prefix_of(whole.skip(k)) {
            if k + size <= front.len() {
                assert(front.skip(k).take(size) =~= whole.skip(k).take(size));
            } else {
                assert(whole.skip(k).take(size)[front.len() - k] == part.first());
            }
        }
    }
    lemma_find_is(whole, part, front.len() as int);
}

/// The musl target does not depend on the API level that follows an Android
/// target, nor on anything else behind the first `-android`.
pub proof fn law_musl_target_drops_api_level(front: Seq<char>, rest: Seq<char>)
    requires
        !contains(front, "-android"@),
    ensures
        musl_target(front + "-android"@ + rest) == front + "-musl"@,
{
    assert("-android"@.len() > 0 && forall|j: int|
        0 < j < "-android"@.len() ==> #[trigger] "-android"@[j] != "-android"@.first()) by {
        reveal_strlit("-android");
    }
    lemma_find_behind(front, "-android"@, rest);
    assert((front + "-android"@ + rest).take(front.len() as int) =~= front);
}

} // verus!
