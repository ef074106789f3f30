//! The workaround for a Cortex-A53 erratum, which Zig's driver refuses.

use vstd::prelude::*;
use vstd::string::StringExecFns;

use crate::response::{line_value, value_of};
use crate::text::{join, joined, lines, lines_of, same, texts};

verus! {

/// The switch with which rustc works around a Cortex-A53 erratum, and which
/// Zig's driver refuses.
pub open spec fn is_erratum_argument(argument: Seq<char>) -> bool {
    argument == "-Wl,--fix-cortex-a53-843419"@
}

/// Whether an argument is the switch for the Cortex-A53 erratum.
pub fn is_cortex_erratum_argument(argument: &str) -> (erratum: bool)
    ensures
        erratum == is_erratum_argument(argument@),
{
    same(argument, "-Wl,--fix-cortex-a53-843419")
}

/// A line of a response file for a link that only loses the switch, if it stays.
pub open spec fn plain_line(line: Seq<char>) -> Option<Seq<char>> {
    if is_erratum_argument(line_value(line)) {
        None
    } else {
        Some(line)
    }
}

/// Whether one of some lines holds the switch.
pub open spec fn holds_erratum(list: Seq<Seq<char>>) -> bool {
    exists|i: int| 0 <= i < list.len() && is_erratum_argument(line_value(#[trigger] list[i]))
}

/// The lines of a response file without the switch, each with a line feed
/// behind it.
pub open spec fn plain_link_text(original: Seq<char>) -> Seq<char> {
    joined(lines(original).filter_map(|line: Seq<char>| plain_line(line)), "\n"@) + "\n"@
}

/// What the contents of a response file are replaced by for a link for neither
/// Windows nor musl. A file without the switch stays as it is.
pub fn rewrite_plain_response(original: &str) -> (result: Option<String>)
    ensures
        match result {
            Some(result) => holds_erratum(lines(original@)) && result@ == plain_link_text(
                original@,
            ),
            None => !holds_erratum(lines(original@)),
        },
{
    let list = lines_of(original);
    let ghost all = texts(list@);
    let ghost pick = |line: Seq<char>| plain_line(line);
    let mut kept: Vec<String> = Vec::new();
    let mut held = false;
    let mut i: usize = 0;
    while i < list.len()
        invariant
            i <= list@.len(),
            all == texts(list@),
            pick == (|line: Seq<char>| plain_line(line)),
            texts(kept@) == all.take(i as int).filter_map(pick),
            held == (exists|k: int|
                0 <= k < i && is_erratum_argument(line_value(#[trigger] all[k]))),
        decreases list@.len() - i,
    {
        proof {
            assert(all.take(i + 1).drop_last() =~= all.take(i as int));
            assert(all.take(i + 1).last() == list@[i as int]@);
            reveal(Seq::filter_map);
        }
        assert(all[i as int] == list@[i as int]@);
        let ghost before = texts(kept@);
        let value = value_of(list[i].as_str());
        if is_cortex_erratum_argument(value.as_str()) {
            held = true;
        } else {
            kept.push(list[i].clone());
            assert(texts(kept@) =~= before.push(list@[i as int]@));
        }
        i += 1;
    }
    assert(all.take(i as int) =~= all);
    if held {
        let mut text = join(&kept, "\n");
        text.append("\n");
        Some(text)
    } else {
        None
    }
}

} // verus!
