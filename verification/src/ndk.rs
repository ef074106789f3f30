//! Which Android NDK is used, and what it has to provide.

use vstd::prelude::*;
use vstd::string::StringExecFns;

use crate::decimal::{numeral, parse_u32, parsed, write_number};
use crate::options::{AndroidOptions, AndroidSettings};
use crate::target::{android_compiler_prefix, android_prefix};
use crate::text::{
    find_present, first_present, join, joined, refusal, same, split, split_at_char, texts,
};

verus! {

// ---------------------------------------------------------------------------
// Versions

/// The number that a piece of a version stands for. What is no number counts
/// as zero.
pub open spec fn piece_value(piece: Seq<char>) -> nat {
    match parsed(piece, u32::MAX as nat) {
        Some(value) => value,
        None => 0,
    }
}

/// A version as its numbers, from the first to the last.
pub open spec fn version_key(name: Seq<char>) -> Seq<nat> {
    split(name, '.').map_values(|piece: Seq<char>| piece_value(piece))
}

/// The numbers of a version key.
pub open spec fn numbers(key: Seq<u32>) -> Seq<nat> {
    key.map_values(|number: u32| number as nat)
}

/// Whether a version is older than another: the first number in which they
/// differ decides, and a version is older than one that it is the start of.
pub open spec fn older(a: Seq<nat>, b: Seq<nat>) -> bool
    decreases a.len(),
{
    if b.len() == 0 {
        false
    } else if a.len() == 0 {
        true
    } else {
        a[0] < b[0] || (a[0] == b[0] && older(a.drop_first(), b.drop_first()))
    }
}

/// The numbers by which NDK directories are ordered, from a directory's name.
pub fn ndk_version_key(name: &str) -> (key: Vec<u32>)
    ensures
        numbers(key@) == version_key(name@),
{
    let pieces = split_at_char(name, '.');
    let mut key: Vec<u32> = Vec::new();
    let mut i: usize = 0;
    while i < pieces.len()
        invariant
            i <= pieces@.len(),
            key@.len() == i,
            forall|k: int| 0 <= k < i ==> #[trigger] key@[k] == piece_value(pieces@[k]@),
        decreases pieces@.len() - i,
    {
        let number = match parse_u32(pieces[i].as_str()) {
            Some(number) => number,
            None => 0,
        };
        key.push(number);
        i += 1;
    }
    assert(numbers(key@) =~= texts(pieces@).map_values(|piece: Seq<char>| piece_value(piece)));
    key
}

/// Whether a version key is older than another.
fn is_older(a: &Vec<u32>, b: &Vec<u32>) -> (result: bool)
    ensures
        result == older(numbers(a@), numbers(b@)),
{
    let mut i: usize = 0;
    assert(numbers(a@).skip(0) =~= numbers(a@));
    assert(numbers(b@).skip(0) =~= numbers(b@));
    while i < a.len() && i < b.len()
        invariant
            i <= a@.len(),
            i <= b@.len(),
            older(numbers(a@), numbers(b@)) == older(
                numbers(a@).skip(i as int),
                numbers(b@).skip(i as int),
            ),
        decreases a@.len() - i,
    {
        let ghost x = numbers(a@).skip(i as int);
        let ghost y = numbers(b@).skip(i as int);
        assert(x[0] == a@[i as int] && y[0] == b@[i as int]);
        if a[i] < b[i] {
            return true;
        }
        if a[i] > b[i] {
            return false;
        }
        assert(x.drop_first() =~= numbers(a@).skip(i + 1));
        assert(y.drop_first() =~= numbers(b@).skip(i + 1));
        i += 1;
    }
    i < b.len()
}

proof fn lemma_older_transitive(a: Seq<nat>, b: Seq<nat>, c: Seq<nat>)
    requires
        older(a, b),
        older(b, c),
    ensures
        older(a, c),
    decreases a.len(),
{
    if a.len() > 0 && a[0] == b[0] && b[0] == c[0] {
        lemma_older_transitive(a.drop_first(), b.drop_first(), c.drop_first());
    }
}

pub(crate) proof fn lemma_older_asymmetric(a: Seq<nat>, b: Seq<nat>)
    requires
        older(a, b),
    ensures
        !older(b, a),
    decreases a.len(),
{
    if a.len() > 0 && a[0] == b[0] {
        lemma_older_asymmetric(a.drop_first(), b.drop_first());
    }
}

proof fn lemma_older_total(a: Seq<nat>, b: Seq<nat>)
    ensures
        older(a, b) || older(b, a) || a == b,
    decreases a.len(),
{
    if a.len() > 0 && b.len() > 0 && a[0] == b[0] {
        lemma_older_total(a.drop_first(), b.drop_first());
        if a.drop_first() == b.drop_first() {
            assert(a =~= seq![a[0]] + a.drop_first());
            assert(b =~= seq![b[0]] + b.drop_first());
        }
    } else if a.len() == 0 && b.len() == 0 {
        assert(a =~= b);
    }
}

// ---------------------------------------------------------------------------
// The newest-first order

/// Whether entry `i` comes before entry `j` when the newest version comes
/// first. Entries of the same version keep their order.
pub open spec fn comes_before(keys: Seq<Seq<nat>>, i: int, j: int) -> bool {
    older(keys[j], keys[i]) || (keys[i] == keys[j] && i < j)
}

/// Whether a list of positions is all of the entries, newest version first.
pub open spec fn is_newest_first(order: Seq<int>, keys: Seq<Seq<nat>>) -> bool {
    &&& order.len() == keys.len()
    &&& forall|a: int| 0 <= a < order.len() ==> 0 <= #[trigger] order[a] < keys.len()
    &&& forall|i: int| 0 <= i < keys.len() ==> #[trigger] order.contains(i)
    &&& forall|a: int, b: int|
        0 <= a < b < order.len() ==> comes_before(keys, #[trigger] order[a], #[trigger] order[b])
}

/// The positions of the entries, newest version first.
pub open spec fn newest_first(keys: Seq<Seq<nat>>) -> Seq<int> {
    choose|order: Seq<int>| is_newest_first(order, keys)
}

proof fn lemma_comes_before_asymmetric(keys: Seq<Seq<nat>>, i: int, j: int)
    requires
        comes_before(keys, i, j),
    ensures
        !comes_before(keys, j, i),
{
    if older(keys[j], keys[i]) {
        lemma_older_asymmetric(keys[j], keys[i]);
    }
    if older(keys[i], keys[j]) {
        lemma_older_asymmetric(keys[i], keys[j]);
    }
}

proof fn lemma_order_agrees(a: Seq<int>, b: Seq<int>, keys: Seq<Seq<nat>>, k: int)
    requires
        is_newest_first(a, keys),
        is_newest_first(b, keys),
        0 <= k < keys.len(),
    ensures
        a[k] == b[k],
    decreases k,
{
    assert forall|i: int| 0 <= i < k implies a[i] == b[i] by {
        lemma_order_agrees(a, b, keys, i);
    }
    if a[k] != b[k] {
        assert(b.contains(a[k]));
        assert(a.contains(b[k]));
        let m = choose|m: int| 0 <= m < b.len() && b[m] == a[k];
        let n = choose|n: int| 0 <= n < a.len() && a[n] == b[k];
        if m < k {
            assert(a[m] == a[k]);
            assert(comes_before(keys, a[m], a[k]));
            lemma_comes_before_asymmetric(keys, a[m], a[k]);
        }
        if n < k {
            assert(b[n] == b[k]);
            assert(comes_before(keys, b[n], b[k]));
            lemma_comes_before_asymmetric(keys, b[n], b[k]);
        }
        assert(comes_before(keys, b[k], b[m]));
        assert(comes_before(keys, a[k], a[n]));
        lemma_comes_before_asymmetric(keys, b[k], b[m]);
    }
}

/// There is no more than one newest-first order of the same entries.
pub proof fn law_newest_first_is_unique(order: Seq<int>, keys: Seq<Seq<nat>>)
    requires
        is_newest_first(order, keys),
    ensures
        newest_first(keys) == order,
{
    let other = newest_first(keys);
    assert forall|k: int| 0 <= k < keys.len() implies order[k] == other[k] by {
        lemma_order_agrees(order, other, keys, k);
    }
    assert(order =~= other);
}

/// Where the entry behind the others goes among them.
proof fn lemma_insert_newest_first(order: Seq<int>, keys: Seq<Seq<nat>>, at: int)
    requires
        keys.len() > 0,
        is_newest_first(order, keys.drop_last()),
        0 <= at <= order.len(),
        at > 0 ==> !older(keys[order[at - 1]], keys.last()),
        at < order.len() ==> older(keys[order[at]], keys.last()),
    ensures
        is_newest_first(order.insert(at, keys.len() - 1), keys),
{
    let front = keys.drop_last();
    let new = keys.len() - 1;
    let result = order.insert(at, new);
    assert forall|a: int| 0 <= a < result.len() implies 0 <= #[trigger] result[a] < keys.len() by {
        if a < at {
            assert(result[a] == order[a]);
        } else if a > at {
            assert(result[a] == order[a - 1]);
        }
    }
    assert forall|i: int| 0 <= i < keys.len() implies #[trigger] result.contains(i) by {
        if i == new {
            assert(result[at] == new);
        } else {
            assert(order.contains(i));
            let m = choose|m: int| 0 <= m < order.len() && order[m] == i;
            if m < at {
                assert(result[m] == i);
            } else {
                assert(result[m + 1] == i);
            }
        }
    }
    assert forall|a: int| 0 <= a < order.len() implies comes_before(keys, #[trigger] order[a], new)
        == (a < at) by {
        assert(front[order[a]] == keys[order[a]]);
        if a < at {
            if a < at - 1 {
                assert(comes_before(front, order[a], order[at - 1]));
                assert(front[order[at - 1]] == keys[order[at - 1]]);
            }
            if older(keys[order[a]], keys[new]) && a < at - 1 {
                // An older one cannot come before one that is not older.
                if older(front[order[at - 1]], front[order[a]]) {
                    lemma_older_transitive(
                        keys[order[at - 1]],
                        keys[order[a]],
                        keys[new],
                    );
                }
            }
            lemma_older_total(keys[order[a]], keys[new]);
        } else {
            assert(front[order[at]] == keys[order[at]]);
            if a > at {
                assert(comes_before(front, order[at], order[a]));
                if older(front[order[a]], front[order[at]]) {
                    lemma_older_transitive(keys[order[a]], keys[order[at]], keys[new]);
                }
            }
            lemma_older_asymmetric(keys[order[a]], keys[new]);
        }
    }
    assert forall|a: int, b: int| 0 <= a < b < result.len() implies comes_before(
        keys,
        #[trigger] result[a],
        #[trigger] result[b],
    ) by {
        if a == at {
            assert(result[b] == order[b - 1]);
            assert(!comes_before(keys, order[b - 1], new));
            lemma_older_total(keys[order[b - 1]], keys[new]);
            assert(0 <= order[b - 1] < front.len());
        } else if b == at {
            assert(result[a] == order[a]);
        } else {
            let x = if a < at { a } else { a - 1 };
            let y = if b < at { b } else { b - 1 };
            assert(result[a] == order[x] && result[b] == order[y]);
            assert(comes_before(front, order[x], order[y]));
            assert(front[order[x]] == keys[order[x]]);
            assert(front[order[y]] == keys[order[y]]);
        }
    }
}

proof fn lemma_insert_position(order: Seq<int>, keys: Seq<Seq<nat>>, from: int) -> (at: int)
    requires
        0 <= from <= order.len(),
        from > 0 ==> !older(keys[order[from - 1]], keys.last()),
    ensures
        0 <= at <= order.len(),
        at > 0 ==> !older(keys[order[at - 1]], keys.last()),
        at < order.len() ==> older(keys[order[at]], keys.last()),
    decreases order.len() - from,
{
    if from == order.len() || older(keys[order[from]], keys.last()) {
        from
    } else {
        lemma_insert_position(order, keys, from + 1)
    }
}

proof fn lemma_newest_first_exists(keys: Seq<Seq<nat>>) -> (order: Seq<int>)
    ensures
        is_newest_first(order, keys),
    decreases keys.len(),
{
    if keys.len() == 0 {
        seq![]
    } else {
        let order = lemma_newest_first_exists(keys.drop_last());
        let at = lemma_insert_position(order, keys, 0);
        lemma_insert_newest_first(order, keys, at);
        order.insert(at, keys.len() - 1)
    }
}

/// Entries have a newest-first order: `newest_first` is all of them, each once,
/// with none behind an older one and the same versions in their order.
pub proof fn law_newest_first_orders_all(keys: Seq<Seq<nat>>)
    ensures
        is_newest_first(newest_first(keys), keys),
{
    let order = lemma_newest_first_exists(keys);
}

// ---------------------------------------------------------------------------
// Selection

/// The last part of a directory's path.
#[derive(Debug)]
pub enum DirectoryName {
    /// The name as it is.
    Unicode(String),
    /// A name that is no Unicode text, with what is not replaced.
    Lossy(String),
    /// The path ends in no name.
    Missing,
}

/// What a directory is called.
pub enum NameText {
    Unicode(Seq<char>),
    Lossy(Seq<char>),
    Missing,
}

impl View for DirectoryName {
    type V = NameText;

    open spec fn view(&self) -> NameText {
        match self {
            DirectoryName::Unicode(name) => NameText::Unicode(name@),
            DirectoryName::Lossy(name) => NameText::Lossy(name@),
            DirectoryName::Missing => NameText::Missing,
        }
    }
}

/// A directory that holds an NDK. `P` is how the caller names directories.
#[derive(Debug)]
pub struct NdkCandidate<P> {
    pub path: P,
    pub name: DirectoryName,
}

/// The version that a directory's name gives. Only Unicode names give one.
pub open spec fn name_key(name: NameText) -> Seq<nat> {
    match name {
        NameText::Unicode(name) => version_key(name),
        _ => version_key(seq![]),
    }
}

/// Whether a directory is called by a version.
pub open spec fn is_named(name: NameText, version: Seq<char>) -> bool {
    match name {
        NameText::Unicode(name) => name == version,
        NameText::Lossy(name) => name == version,
        NameText::Missing => false,
    }
}

/// What candidates are called.
pub open spec fn candidate_names<P>(candidates: Seq<NdkCandidate<P>>) -> Seq<NameText> {
    candidates.map_values(|candidate: NdkCandidate<P>| candidate.name@)
}

/// The versions of candidates by their names.
pub open spec fn name_keys(names: Seq<NameText>) -> Seq<Seq<nat>> {
    names.map_values(|name: NameText| name_key(name))
}

/// The first of some positions at which a directory is called by a version.
pub open spec fn first_named(order: Seq<int>, names: Seq<NameText>, version: Seq<char>) -> Option<
    int,
>
    decreases order.len(),
{
    if order.len() == 0 {
        None
    } else if is_named(names[order[0]], version) {
        Some(order[0])
    } else {
        first_named(order.drop_first(), names, version)
    }
}

/// The position of the candidate that the settings select: the one with the
/// version that is asked for, else the one at the index that is asked for when
/// the newest comes first, else the newest.
pub open spec fn selected(names: Seq<NameText>, settings: AndroidSettings) -> Option<int> {
    let order = newest_first(name_keys(names));
    if settings.ndk_version is Some {
        first_named(order, names, settings.ndk_version->0)
    } else {
        let index = match settings.ndk_index {
            Some(index) => index as int,
            None => 0,
        };
        if index < order.len() {
            Some(order[index])
        } else {
            None
        }
    }
}

/// The version key that a candidate's name gives.
fn candidate_key<P>(candidate: &NdkCandidate<P>) -> (key: Vec<u32>)
    ensures
        numbers(key@) == name_key(candidate.name@),
{
    match &candidate.name {
        DirectoryName::Unicode(name) => ndk_version_key(name.as_str()),
        _ => {
            let none = String::new();
            assert(none@ =~= seq![]);
            ndk_version_key(none.as_str())
        },
    }
}

/// The positions of the candidates, newest version first.
fn newest_first_order<P>(candidates: &Vec<NdkCandidate<P>>) -> (order: Vec<usize>)
    ensures
        order@.map_values(|position: usize| position as int) == newest_first(
            name_keys(candidate_names(candidates@)),
        ),
{
    let ghost all = name_keys(candidate_names(candidates@));
    let mut keys: Vec<Vec<u32>> = Vec::new();
    let mut order: Vec<usize> = Vec::new();
    let mut i: usize = 0;
    assert(all.take(0) =~= seq![]);
    while i < candidates.len()
        invariant
            i <= candidates@.len(),
            all == name_keys(candidate_names(candidates@)),
            keys@.len() == i,
            order@.len() == i,
            forall|k: int| 0 <= k < i ==> numbers((#[trigger] keys@[k])@) == all[k],
            is_newest_first(order@.map_values(|position: usize| position as int), all.take(i as int)),
        decreases candidates@.len() - i,
    {
        let key = candidate_key(&candidates[i]);
        let ghost before = order@.map_values(|position: usize| position as int);
        let ghost front = all.take(i as int);
        let ghost next = all.take(i + 1);
        assert(next.drop_last() =~= front);
        assert(next.last() == all[i as int]);
        assert(numbers(key@) == all[i as int]);
        assert forall|k: int| 0 <= k < order@.len() implies (#[trigger] order@[k]) < i by {
            assert(before[k] == order@[k]);
        }
        let mut at: usize = 0;
        while at < order.len() && !is_older(&keys[order[at]], &key)
            invariant
                at <= order@.len(),
                order@.len() == i,
                keys@.len() == i,
                i < candidates@.len(),
                all.len() == candidates@.len(),
                before == order@.map_values(|position: usize| position as int),
                front == all.take(i as int),
                next == all.take(i + 1),
                numbers(key@) == next.last(),
                forall|k: int| 0 <= k < i ==> numbers((#[trigger] keys@[k])@) == all[k],
                is_newest_first(before, front),
                forall|k: int| 0 <= k < order@.len() ==> (#[trigger] order@[k]) < i,
                at > 0 ==> !older(next[before[at - 1]], next.last()),
            decreases order@.len() - at,
        {
            assert(next[before[at as int]] == all[order@[at as int] as int]);
            at += 1;
        }
        proof {
            if at < order@.len() {
                assert(next[before[at as int]] == all[order@[at as int] as int]);
            }
            lemma_insert_newest_first(before, next, at as int);
        }
        order.insert(at, i);
        keys.push(key);
        assert(order@.map_values(|position: usize| position as int) =~= before.insert(
            at as int,
            i as int,
        ));
        i += 1;
    }
    proof {
        assert(all.take(i as int) =~= all);
        law_newest_first_is_unique(order@.map_values(|position: usize| position as int), all);
    }
    order
}

/// Whether a directory is called by a version.
fn has_name(name: &DirectoryName, version: &str) -> (named: bool)
    ensures
        named == is_named(name@, version@),
{
    match name {
        DirectoryName::Unicode(name) => same(name.as_str(), version),
        DirectoryName::Lossy(name) => same(name.as_str(), version),
        DirectoryName::Missing => false,
    }
}

/// The first of some positions at which a candidate is called by a version.
fn first_with_name<P>(
    order: &Vec<usize>,
    candidates: &Vec<NdkCandidate<P>>,
    version: &str,
) -> (found: Option<usize>)
    requires
        forall|k: int| 0 <= k < order@.len() ==> (#[trigger] order@[k]) < candidates@.len(),
    ensures
        ({
            let positions = order@.map_values(|position: usize| position as int);
            let first = first_named(positions, candidate_names(candidates@), version@);
            match found {
                Some(position) => first == Some(position as int) && position < candidates@.len(),
                None => first is None,
            }
        }),
{
    let ghost names = candidate_names(candidates@);
    let ghost positions = order@.map_values(|position: usize| position as int);
    let mut i: usize = 0;
    assert(positions.skip(0) =~= positions);
    while i < order.len()
        invariant
            i <= order@.len(),
            names == candidate_names(candidates@),
            positions == order@.map_values(|position: usize| position as int),
            forall|k: int| 0 <= k < order@.len() ==> (#[trigger] order@[k]) < candidates@.len(),
            first_named(positions, names, version@) == first_named(
                positions.skip(i as int),
                names,
                version@,
            ),
        decreases order@.len() - i,
    {
        let position = order[i];
        assert(positions.skip(i as int)[0] == position as int);
        assert(names[position as int] == candidates@[position as int].name@);
        if has_name(&candidates[position].name, version) {
            return Some(position);
        }
        assert(positions.skip(i as int).drop_first() =~= positions.skip(i + 1));
        i += 1;
    }
    None
}

/// The candidate that the options select.
pub fn select_ndk_candidate<P>(
    candidates: Vec<NdkCandidate<P>>,
    options: &AndroidOptions,
) -> (candidate: Option<NdkCandidate<P>>)
    ensures
        match candidate {
            Some(candidate) => {
                let position = selected(candidate_names(candidates@), options@);
                &&& position is Some
                &&& 0 <= position->0 < candidates@.len()
                &&& candidate == candidates@[position->0]
            },
            None => selected(candidate_names(candidates@), options@) is None,
        },
{
    let ghost names = candidate_names(candidates@);
    let order = newest_first_order(&candidates);
    let ghost positions = order@.map_values(|position: usize| position as int);
    proof {
        law_newest_first_orders_all(name_keys(names));
        assert forall|k: int| 0 <= k < order@.len() implies (#[trigger] order@[k])
            < candidates@.len() by {
            assert(positions[k] == order@[k]);
        }
    }
    let found = match &options.ndk_version {
        Some(version) => first_with_name(&order, &candidates, version.as_str()),
        None => {
            let index: usize = match options.ndk_index {
                Some(index) => index,
                None => 0,
            };
            if index < order.len() {
                assert(positions[index as int] == order@[index as int]);
                Some(order[index])
            } else {
                None
            }
        },
    };
    match found {
        Some(position) => {
            let mut rest = candidates;
            Some(rest.swap_remove(position))
        },
        None => None,
    }
}

// ---------------------------------------------------------------------------
// The NDK's home

/// What is found at the place where NDKs are looked for.
#[derive(Debug)]
pub enum NdkHome<P> {
    /// It is one NDK.
    Installation,
    /// It is no directory.
    Absent,
    /// It is a directory that cannot be read, for this reason.
    Unreadable(String),
    /// It is a directory with these NDKs in it.
    Versions(Vec<NdkCandidate<P>>),
}

/// Which NDK is used.
#[derive(Debug)]
pub enum NdkRoot<P> {
    /// The one that its home is.
    Home,
    /// The one in this directory.
    Version(P),
}

/// The names that can be shown, in the order of the candidates.
pub open spec fn shown_names(names: Seq<NameText>) -> Seq<Seq<char>> {
    names.filter_map(
        |name: NameText|
            match name {
                NameText::Unicode(name) => Some(name),
                _ => None,
            },
    )
}

/// Names in an order, given by their positions.
pub open spec fn in_order(names: Seq<NameText>, order: Seq<int>) -> Seq<NameText> {
    order.map_values(|position: int| names[position])
}

/// Names in the order that indices count them in, the newest first.
pub open spec fn newest_names(names: Seq<NameText>) -> Seq<NameText> {
    in_order(names, newest_first(name_keys(names)))
}

/// Why none of some candidates is selected. Versions are listed as they were
/// found, or where an index is too high in the order that it counts in.
pub open spec fn selection_refusal(
    names: Seq<NameText>,
    settings: AndroidSettings,
    source: Seq<char>,
    home: Seq<char>,
) -> Seq<char> {
    if settings.ndk_version is Some {
        "NDK version '"@ + settings.ndk_version->0 + "' was not found below "@ + source + " '"@ + home
            + "'; available versions: "@ + joined(shown_names(names), ", "@)
    } else if settings.ndk_index is Some {
        "NDK index "@ + numeral(settings.ndk_index->0 as nat) + " is out of range below "@ + source
            + " '"@ + home + "'; newest-first versions: "@ + joined(
            shown_names(newest_names(names)),
            ", "@,
        )
    } else {
        source + " '"@ + home
            + "' is not an NDK and contains no NDK version with toolchains/llvm/prebuilt"@
    }
}

/// The names at some positions that can be shown, with commas between them.
fn listed_names<P>(candidates: &Vec<NdkCandidate<P>>, order: &Vec<usize>) -> (list: String)
    requires
        forall|k: int| 0 <= k < order@.len() ==> (#[trigger] order@[k]) < candidates@.len(),
    ensures
        list@ == joined(
            shown_names(
                in_order(
                    candidate_names(candidates@),
                    order@.map_values(|position: usize| position as int),
                ),
            ),
            ", "@,
        ),
{
    let ghost positions = order@.map_values(|position: usize| position as int);
    let ghost names = in_order(candidate_names(candidates@), positions);
    let mut shown: Vec<String> = Vec::new();
    let mut i: usize = 0;
    while i < order.len()
        invariant
            i <= order@.len(),
            positions == order@.map_values(|position: usize| position as int),
            names == in_order(candidate_names(candidates@), positions),
            forall|k: int| 0 <= k < order@.len() ==> (#[trigger] order@[k]) < candidates@.len(),
            texts(shown@) == shown_names(names.take(i as int)),
        decreases order@.len() - i,
    {
        let position = order[i];
        proof {
            assert(names.take(i + 1).drop_last() =~= names.take(i as int));
            assert(names.take(i + 1).last() == candidates@[position as int].name@);
            reveal(Seq::filter_map);
        }
        let ghost before = texts(shown@);
        if let DirectoryName::Unicode(name) = &candidates[position].name {
            shown.push(name.clone());
            assert(texts(shown@) =~= before.push(name@));
        }
        i += 1;
    }
    assert(names.take(i as int) =~= names);
    join(&shown, ", ")
}

/// The names that can be shown, as they were found, with commas between them.
fn available_names<P>(candidates: &Vec<NdkCandidate<P>>) -> (list: String)
    ensures
        list@ == joined(shown_names(candidate_names(candidates@)), ", "@),
{
    let ghost names = candidate_names(candidates@);
    let mut order: Vec<usize> = Vec::new();
    let mut i: usize = 0;
    while i < candidates.len()
        invariant
            i <= candidates@.len(),
            order@.len() == i,
            forall|k: int| 0 <= k < i ==> (#[trigger] order@[k]) == k,
        decreases candidates@.len() - i,
    {
        order.push(i);
        i += 1;
    }
    assert(in_order(names, order@.map_values(|position: usize| position as int)) =~= names);
    listed_names(candidates, &order)
}

/// The names that can be shown, newest first, with commas between them.
fn newest_first_names<P>(candidates: &Vec<NdkCandidate<P>>) -> (list: String)
    ensures
        list@ == joined(shown_names(newest_names(candidate_names(candidates@))), ", "@),
{
    let order = newest_first_order(candidates);
    proof {
        let positions = order@.map_values(|position: usize| position as int);
        law_newest_first_orders_all(name_keys(candidate_names(candidates@)));
        assert forall|k: int| 0 <= k < order@.len() implies (#[trigger] order@[k])
            < candidates@.len() by {
            assert(positions[k] == order@[k]);
        }
    }
    listed_names(candidates, &order)
}

/// Which NDK is used of what is found at `home`, which `source` named.
pub fn select_ndk_root<P>(
    found: NdkHome<P>,
    source: &str,
    home: &str,
    options: &AndroidOptions,
) -> (root: Result<NdkRoot<P>, String>)
    ensures
        match found {
            NdkHome::Installation => {
                let selects = options.ndk_version is Some || options.ndk_index is Some;
                match root {
                    Ok(root) => !selects && root is Home,
                    Err(message) => selects && message@ == source@ + " '"@ + home@
                        + "' already points to one NDK installation; remove -ndkversion/-nindx"@,
                }
            },
            NdkHome::Absent => root is Err && root->Err_0@ == source@ + " path does not exist: "@
                + home@,
            NdkHome::Unreadable(reason) => root is Err && root->Err_0@ == "cannot read "@ + source@
                + " directory '"@ + home@ + "': "@ + reason@,
            NdkHome::Versions(candidates) => {
                let names = candidate_names(candidates@);
                let position = selected(names, options@);
                match root {
                    Ok(NdkRoot::Version(path)) => position is Some && 0 <= position->0
                        < candidates@.len() && path == candidates@[position->0].path,
                    Ok(NdkRoot::Home) => false,
                    Err(message) => position is None && message@ == selection_refusal(
                        names,
                        options@,
                        source@,
                        home@,
                    ),
                }
            },
        },
{
    match found {
        NdkHome::Installation => {
            if options.ndk_version.is_some() || options.ndk_index.is_some() {
                let mut message = source.to_owned();
                message.append(" '");
                message.append(home);
                message.append(
                    "' already points to one NDK installation; remove -ndkversion/-nindx",
                );
                Err(message)
            } else {
                Ok(NdkRoot::Home)
            }
        },
        NdkHome::Absent => {
            let mut message = source.to_owned();
            message.append(" path does not exist: ");
            message.append(home);
            Err(message)
        },
        NdkHome::Unreadable(reason) => {
            let mut message = "cannot read ".to_owned();
            message.append(source);
            message.append(" directory '");
            message.append(home);
            message.append("': ");
            message.append(reason.as_str());
            Err(message)
        },
        NdkHome::Versions(candidates) => {
            let listed = if options.ndk_version.is_none() && options.ndk_index.is_some() {
                newest_first_names(&candidates)
            } else {
                available_names(&candidates)
            };
            if let Some(candidate) = select_ndk_candidate(candidates, options) {
                return Ok(NdkRoot::Version(candidate.path));
            }
            let mut message = String::new();
            if let Some(version) = &options.ndk_version {
                message = "NDK version '".to_owned();
                message.append(version.as_str());
                message.append("' was not found below ");
                message.append(source);
                message.append(" '");
                message.append(home);
                message.append("'; available versions: ");
                message.append(listed.as_str());
            } else if let Some(index) = options.ndk_index {
                message = "NDK index ".to_owned();
                message.append(write_number(index as u64).as_str());
                message.append(" is out of range below ");
                message.append(source);
                message.append(" '");
                message.append(home);
                message.append("'; newest-first versions: ");
                message.append(listed.as_str());
            } else {
                message = source.to_owned();
                message.append(" '");
                message.append(home);
                message.append(
                    "' is not an NDK and contains no NDK version with toolchains/llvm/prebuilt",
                );
            }
            Err(message)
        },
    }
}

/// Where the place to look for NDKs comes from.
#[derive(Debug)]
pub enum NdkSource {
    /// The `--ndk-path` option.
    Option,
    /// The environment variable with this name.
    Variable(String),
}

/// What messages call a source.
pub open spec fn ndk_source_name(source: NdkSource) -> Seq<char> {
    match source {
        NdkSource::Option => "--ndk-path"@,
        NdkSource::Variable(name) => name@,
    }
}

impl NdkSource {
    /// What messages call this source.
    pub fn name(&self) -> (name: &str)
        ensures
            name@ == ndk_source_name(*self),
    {
        match self {
            NdkSource::Option => "--ndk-path",
            NdkSource::Variable(name) => name.as_str(),
        }
    }
}

/// The environment variables that say where NDKs are, in the order they are
/// looked at.
pub open spec fn ndk_homes() -> Seq<Seq<char>> {
    seq!["Ndk_home"@, "ANDROID_NDK_HOME"@, "ANDROID_NDK_ROOT"@]
}

/// The environment variables that say where NDKs are, in the order they are
/// looked at.
pub fn ndk_variables() -> (names: Vec<String>)
    ensures
        texts(names@) == ndk_homes(),
{
    let names = vec![
        "Ndk_home".to_owned(),
        "ANDROID_NDK_HOME".to_owned(),
        "ANDROID_NDK_ROOT".to_owned(),
    ];
    assert(texts(names@) =~= ndk_homes());
    names
}

/// Where NDKs are looked for: the option goes before the environment. `set` are
/// the variables that are set.
pub fn ndk_source(options: &AndroidOptions, set: &Vec<String>) -> (source: Result<
    NdkSource,
    String,
>)
    ensures
        ({
            let variable = first_present(ndk_homes(), texts(set@));
            match source {
                Ok(NdkSource::Option) => options.ndk_path is Some,
                Ok(NdkSource::Variable(name)) => options.ndk_path is None && variable == Some(
                    name@,
                ),
                Err(message) => options.ndk_path is None && variable is None && message@
                    == "Ndk_home is not set; set it to an Android NDK installation or Android SDK ndk directory"@,
            }
        }),
{
    if options.ndk_path.is_some() {
        return Ok(NdkSource::Option);
    }
    match find_present(&ndk_variables(), set) {
        Some(name) => Ok(NdkSource::Variable(name)),
        None => Err(
            "Ndk_home is not set; set it to an Android NDK installation or Android SDK ndk directory".to_owned(),
        ),
    }
}

// ---------------------------------------------------------------------------
// The NDK's tools

/// The machine that the tools run on.
#[derive(Clone, Copy, Debug, PartialEq, Eq, Structural)]
pub struct Host {
    pub windows: bool,
    pub macos: bool,
    pub aarch64: bool,
}

/// The name of the NDK's tools for a host.
pub open spec fn host_tag(host: Host) -> Seq<char> {
    if host.windows {
        "windows-x86_64"@
    } else if host.macos && host.aarch64 {
        "darwin-arm64"@
    } else if host.macos {
        "darwin-x86_64"@
    } else {
        "linux-x86_64"@
    }
}

/// The name of the NDK's tools for a host.
pub fn ndk_host_tag(host: Host) -> (tag: &'static str)
    ensures
        tag@ == host_tag(host),
{
    if host.windows {
        "windows-x86_64"
    } else if host.macos && host.aarch64 {
        "darwin-arm64"
    } else if host.macos {
        "darwin-x86_64"
    } else {
        "linux-x86_64"
    }
}

/// The directories from an NDK down to its prebuilt tools. A directory with
/// these below it is an NDK.
pub fn ndk_prebuilt_directories() -> (names: Vec<String>)
    ensures
        texts(names@) == seq!["toolchains"@, "llvm"@, "prebuilt"@],
{
    let names = vec!["toolchains".to_owned(), "llvm".to_owned(), "prebuilt".to_owned()];
    assert(texts(names@) =~= seq!["toolchains"@, "llvm"@, "prebuilt"@]);
    names
}

/// The file names of the NDK's tools for a target.
#[derive(Debug)]
pub struct AndroidTools {
    pub cc: String,
    pub cxx: String,
    pub ar: String,
}

/// What an NDK's directory name says of its version.
pub fn ndk_version_name(name: &DirectoryName) -> (version: String)
    ensures
        version@ == match name@ {
            NameText::Unicode(name) => name,
            _ => "direct"@,
        },
{
    match name {
        DirectoryName::Unicode(name) => name.clone(),
        _ => "direct".to_owned(),
    }
}

/// The compilers of an NDK start with the target's prefix and the API level
/// that was asked for, or the one that the target is taken for otherwise.
pub open spec fn compiler_stem(triple: Seq<char>, api_level: Option<u32>) -> Option<Seq<char>> {
    match android_prefix(triple) {
        Some((prefix, default_level)) => Some(
            prefix + numeral(
                match api_level {
                    Some(level) => level as nat,
                    None => default_level,
                },
            ),
        ),
        None => None,
    }
}

/// The file names of the NDK's tools for a target.
pub fn android_tools(cargo_target: &str, api_level: Option<u32>, host: Host) -> (tools: Result<
    AndroidTools,
    String,
>)
    ensures
        match tools {
            Ok(tools) => {
                let stem = compiler_stem(cargo_target@, api_level);
                let script = if host.windows {
                    ".cmd"@
                } else {
                    ""@
                };
                &&& stem is Some
                &&& tools.cc@ == stem->0 + "-clang"@ + script
                &&& tools.cxx@ == stem->0 + "-clang++"@ + script
                &&& tools.ar@ == if host.windows {
                    "llvm-ar.exe"@
                } else {
                    "llvm-ar"@
                }
            },
            Err(message) => compiler_stem(cargo_target@, api_level) is None && message@
                == "unsupported Android Rust target: "@ + cargo_target@,
        },
{
    let (prefix, default_level) = android_compiler_prefix(cargo_target)?;
    let level = match api_level {
        Some(level) => level,
        None => default_level,
    };
    let script = if host.windows {
        ".cmd"
    } else {
        ""
    };
    let mut stem = prefix.to_owned();
    stem.append(write_number(level as u64).as_str());
    let mut cc = stem.clone();
    cc.append("-clang");
    cc.append(script);
    let mut cxx = stem;
    cxx.append("-clang++");
    cxx.append(script);
    let ar = if host.windows {
        "llvm-ar.exe".to_owned()
    } else {
        "llvm-ar".to_owned()
    };
    Ok(AndroidTools { cc, cxx, ar })
}

/// Checks that an NDK has a sysroot for the host. `root` and `sysroot` are the
/// paths as they are shown.
pub fn check_ndk_sysroot(root: &str, sysroot: &str, host: Host, is_directory: bool) -> (outcome:
    Result<(), String>)
    ensures
        match outcome {
            Ok(_) => is_directory,
            Err(message) => !is_directory && message@ == "Android NDK '"@ + root@
                + "' has no sysroot for host '"@ + host_tag(host) + "': "@ + sysroot@,
        },
{
    if is_directory {
        return Ok(());
    }
    let mut message = "Android NDK '".to_owned();
    message.append(root);
    message.append("' has no sysroot for host '");
    message.append(ndk_host_tag(host));
    message.append("': ");
    message.append(sysroot);
    Err(message)
}

/// A tool of an NDK: its path as it is shown, and whether it is there.
#[derive(Debug)]
pub struct ToolFile {
    pub path: String,
    pub is_file: bool,
}

/// The message for a tool that an NDK lacks.
pub open spec fn missing_tool(
    root: Seq<char>,
    name: Seq<char>,
    triple: Seq<char>,
    path: Seq<char>,
) -> Seq<char> {
    "Android NDK '"@ + root + "' does not provide the "@ + name + " needed for "@ + triple + ": "@
        + path
}

/// Checks that an NDK has the tools that are used in Zig's place. Nothing is
/// asked of an NDK that Zig is used with.
pub fn check_ndk_tools(
    options: &AndroidOptions,
    root: &str,
    cargo_target: &str,
    cc: &ToolFile,
    cxx: &ToolFile,
    ar: &ToolFile,
) -> (outcome: Result<(), String>)
    ensures
        refusal(outcome) == if !options.ndk_fallback {
            None
        } else if !cc.is_file {
            Some(missing_tool(root@, "C compiler"@, cargo_target@, cc.path@))
        } else if !cxx.is_file {
            Some(missing_tool(root@, "C++ compiler"@, cargo_target@, cxx.path@))
        } else if !ar.is_file {
            Some(missing_tool(root@, "archiver"@, cargo_target@, ar.path@))
        } else {
            None
        },
{
    if !options.ndk_fallback {
        return Ok(());
    }
    if !cc.is_file {
        return Err(missing_tool_message(root, "C compiler", cargo_target, cc.path.as_str()));
    }
    if !cxx.is_file {
        return Err(missing_tool_message(root, "C++ compiler", cargo_target, cxx.path.as_str()));
    }
    if !ar.is_file {
        return Err(missing_tool_message(root, "archiver", cargo_target, ar.path.as_str()));
    }
    Ok(())
}

fn missing_tool_message(root: &str, name: &str, cargo_target: &str, path: &str) -> (message: String)
    ensures
        message@ == missing_tool(root@, name@, cargo_target@, path@),
{
    let mut message = "Android NDK '".to_owned();
    message.append(root);
    message.append("' does not provide the ");
    message.append(name);
    message.append(" needed for ");
    message.append(cargo_target);
    message.append(": ");
    message.append(path);
    message
}

} // verus!
