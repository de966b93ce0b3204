use crate::lists::reversed;
use crate::results::TorrentResult;
use crate::text::same_text;
use vstd::prelude::*;
use vstd::string::*;

verus! {

/// The rank given to a source that the priority table does not list.
pub const UNLISTED_PRIORITY: usize = 999;

/// How a merged list is ordered.
#[derive(Clone, Copy, Debug)]
pub enum Ranking {
    /// By seeder count, highest first.
    BySeeders,
    /// By the priority of the source, then by seeder count, highest first.
    BySourceThenSeeders,
}

/// The place of a source in the fixed priority table; lower comes first.
pub open spec fn source_priority(source: Seq<char>) -> nat {
    if source == "yts"@ {
        0
    } else if source == "ilcorsaronero"@ {
        1
    } else if source == "tpb"@ {
        2
    } else if source == "bitsearch"@ {
        3
    } else if source == "1337x"@ {
        4
    } else if source == "extto"@ {
        5
    } else {
        999
    }
}

/// The pair by which a result is ordered: a lower first part comes first, and
/// among equal first parts the higher second part comes first.
pub open spec fn rank_key(r: TorrentResult, ranking: Ranking) -> (nat, int) {
    match ranking {
        Ranking::BySeeders => (0, r.seeders as int),
        Ranking::BySourceThenSeeders => (source_priority(r.source@), r.seeders as int),
    }
}

/// `a` may stand before `b`: it ranks before `b` or the same.
pub open spec fn key_le(a: (nat, int), b: (nat, int)) -> bool {
    a.0 < b.0 || (a.0 == b.0 && a.1 >= b.1)
}

/// `a` must stand before `b`.
pub open spec fn key_lt(a: (nat, int), b: (nat, int)) -> bool {
    a.0 < b.0 || (a.0 == b.0 && a.1 > b.1)
}

/// `from[i]` is the place in `input` of the item at place `i` of `output`, and
/// `to` is its inverse; the output is in rank order, and items of equal rank
/// stand in the order they had in the input.
pub open spec fn is_stable_order(
    input: Seq<TorrentResult>,
    output: Seq<TorrentResult>,
    ranking: Ranking,
    from: Seq<int>,
    to: Seq<int>,
) -> bool {
    &&& output.len() == input.len()
    &&& from.len() == input.len()
    &&& to.len() == input.len()
    &&& forall|i: int|
        0 <= i < output.len() ==> 0 <= #[trigger] from[i] < input.len() && output[i] == input[from[i]]
            && to[from[i]] == i
    &&& forall|a: int| 0 <= a < input.len() ==> 0 <= #[trigger] to[a] < output.len() && from[to[a]] == a
    &&& forall|i: int, j: int|
        0 <= i < j < output.len() ==> key_lt(
            rank_key(#[trigger] output[i], ranking),
            rank_key(#[trigger] output[j], ranking),
        ) || (rank_key(output[i], ranking) == rank_key(output[j], ranking) && from[i] < from[j])
}

/// `output` holds the items of `input` in rank order, items of equal rank in
/// the order they had in `input`.
pub open spec fn is_stable_sort(
    input: Seq<TorrentResult>,
    output: Seq<TorrentResult>,
    ranking: Ranking,
) -> bool {
    exists|from: Seq<int>, to: Seq<int>| is_stable_order(input, output, ranking, from, to)
}

/// Whether `source` is one of the enabled sources.
pub open spec fn source_enabled(enabled: Seq<String>, source: Seq<char>) -> bool {
    exists|i: int| 0 <= i < enabled.len() && (#[trigger] enabled[i])@ == source
}

/// The results of `results` whose source is enabled, in their order.
pub open spec fn enabled_results(results: Seq<TorrentResult>, enabled: Seq<String>) -> Seq<
    TorrentResult,
> {
    results.filter(|r: TorrentResult| source_enabled(enabled, r.source@))
}

/// What one adapter contributed: its list, or nothing where it failed.
pub open spec fn outcome_list(o: Option<Vec<TorrentResult>>) -> Seq<TorrentResult> {
    match o {
        Some(v) => v@,
        None => Seq::empty(),
    }
}

/// The lists of the adapters that did not fail, one after the other in the
/// order of the adapters.
pub open spec fn merged(outcomes: Seq<Option<Vec<TorrentResult>>>) -> Seq<TorrentResult> {
    outcomes.map_values(|o: Option<Vec<TorrentResult>>| outcome_list(o)).flatten()
}

/// The place of `source` in the fixed priority table.
pub fn priority_of(source: &str) -> (p: usize)
    ensures
        p == source_priority(source@),
{
    if same_text(source, "yts") {
        0
    } else if same_text(source, "ilcorsaronero") {
        1
    } else if same_text(source, "tpb") {
        2
    } else if same_text(source, "bitsearch") {
        3
    } else if same_text(source, "1337x") {
        4
    } else if same_text(source, "extto") {
        5
    } else {
        UNLISTED_PRIORITY
    }
}

/// Whether `a` may stand before `b` under `ranking`.
pub fn ranks_no_later(a: &TorrentResult, b: &TorrentResult, ranking: Ranking) -> (r: bool)
    ensures
        r == key_le(rank_key(*a, ranking), rank_key(*b, ranking)),
{
    match ranking {
        Ranking::BySeeders => a.seeders >= b.seeders,
        Ranking::BySourceThenSeeders => {
            let pa = priority_of(a.source.as_str());
            let pb = priority_of(b.source.as_str());
            pa < pb || (pa == pb && a.seeders >= b.seeders)
        },
    }
}

/// The place at which `x` enters `sorted`: behind every item that may stand
/// before it.
fn insertion_point(sorted: &Vec<TorrentResult>, x: &TorrentResult, ranking: Ranking) -> (pos:
    usize)
    ensures
        pos <= sorted.len(),
        forall|k: int|
            0 <= k < pos ==> key_le(rank_key(#[trigger] sorted@[k], ranking), rank_key(*x, ranking)),
        pos < sorted.len() ==> key_lt(rank_key(*x, ranking), rank_key(sorted@[pos as int], ranking)),
{
    let mut pos: usize = 0;
    while pos < sorted.len() && ranks_no_later(&sorted[pos], x, ranking)
        invariant
            pos <= sorted.len(),
            forall|k: int|
                0 <= k < pos ==> key_le(
                    rank_key(#[trigger] sorted@[k], ranking),
                    rank_key(*x, ranking),
                ),
        decreases sorted.len() - pos,
    {
        pos += 1;
    }
    pos
}

/// Putting the next item of the input at its insertion point keeps the order
/// stable.
proof fn lemma_insert_stable(
    input: Seq<TorrentResult>,
    output: Seq<TorrentResult>,
    ranking: Ranking,
    from: Seq<int>,
    to: Seq<int>,
    x: TorrentResult,
    pos: int,
)
    requires
        is_stable_order(input, output, ranking, from, to),
        0 <= pos <= output.len(),
        forall|k: int|
            0 <= k < pos ==> key_le(rank_key(#[trigger] output[k], ranking), rank_key(x, ranking)),
        pos < output.len() ==> key_lt(rank_key(x, ranking), rank_key(output[pos], ranking)),
    ensures
        is_stable_order(
            input.push(x),
            output.insert(pos, x),
            ranking,
            from.insert(pos, input.len() as int),
            to.map_values(|t: int| if t >= pos { t + 1 } else { t }).push(pos),
        ),
{
    let n = input.len() as int;
    let input2 = input.push(x);
    let output2 = output.insert(pos, x);
    let from2 = from.insert(pos, n);
    let to2 = to.map_values(|t: int| if t >= pos { t + 1 } else { t }).push(pos);
    assert forall|i: int| 0 <= i < output2.len() implies 0 <= #[trigger] from2[i] < input2.len()
        && output2[i] == input2[from2[i]] && to2[from2[i]] == i by {
        if i < pos {
            assert(from2[i] == from[i]);
            assert(output2[i] == output[i]);
        } else if i == pos {
        } else {
            assert(from2[i] == from[i - 1]);
            assert(output2[i] == output[i - 1]);
        }
    }
    assert forall|a: int| 0 <= a < input2.len() implies 0 <= #[trigger] to2[a] < output2.len()
        && from2[to2[a]] == a by {
        if a < n {
            assert(from[to[a]] == a);
        }
    }
    assert forall|i: int, j: int| 0 <= i < j < output2.len() implies key_lt(
        rank_key(#[trigger] output2[i], ranking),
        rank_key(#[trigger] output2[j], ranking),
    ) || (rank_key(output2[i], ranking) == rank_key(output2[j], ranking) && from2[i] < from2[j]) by {
        let oi = if i < pos { i } else { i - 1 };
        let oj = if j < pos { j } else { j - 1 };
        if i == pos {
            assert(output2[j] == output[oj]);
            assert(from2[j] == from[oj]);
            if oj > pos {
                assert(key_lt(rank_key(output[pos], ranking), rank_key(output[oj], ranking)) || (
                rank_key(output[pos], ranking) == rank_key(output[oj], ranking)));
            }
        } else if j == pos {
            assert(output2[i] == output[oi]);
            assert(from2[i] == from[oi]);
            assert(0 <= from[oi] < n);
        } else {
            assert(output2[i] == output[oi]);
            assert(output2[j] == output[oj]);
            assert(from2[i] == from[oi]);
            assert(from2[j] == from[oj]);
        }
    }
}

/// Orders `results` by `ranking`; results of equal rank keep their order.
pub fn stable_sort(results: Vec<TorrentResult>, ranking: Ranking) -> (sorted: Vec<TorrentResult>)
    ensures
        is_stable_sort(results@, sorted@, ranking),
{
    let ghost all = results@;
    let mut rest = reversed(results);
    let mut sorted: Vec<TorrentResult> = Vec::new();
    let ghost mut done: int = 0;
    let ghost mut from: Seq<int> = Seq::empty();
    let ghost mut to: Seq<int> = Seq::empty();
    while rest.len() > 0
        invariant
            0 <= done <= all.len(),
            done + rest.len() == all.len(),
            rest@ == all.reverse().take(rest.len() as int),
            is_stable_order(all.take(done), sorted@, ranking, from, to),
        decreases rest.len(),
    {
        let x = rest.pop().unwrap();
        let pos = insertion_point(&sorted, &x, ranking);
        proof {
            assert(x == all[done]);
            assert(all.take(done + 1) =~= all.take(done).push(x));
            lemma_insert_stable(all.take(done), sorted@, ranking, from, to, x, pos as int);
            from = from.insert(pos as int, done);
            to = to.map_values(|t: int| if t >= pos { t + 1 } else { t }).push(pos as int);
            done = done + 1;
        }
        sorted.insert(pos, x);
    }
    assert(all.take(done) =~= all);
    sorted
}


/// Whether `source` is one of `enabled`.
pub fn is_enabled(enabled: &Vec<String>, source: &str) -> (b: bool)
    ensures
        b == source_enabled(enabled@, source@),
{
    let mut i: usize = 0;
    while i < enabled.len()
        invariant
            i <= enabled.len(),
            forall|k: int| 0 <= k < i ==> (#[trigger] enabled@[k])@ != source@,
        decreases enabled.len() - i,
    {
        if same_text(enabled[i].as_str(), source) {
            return true;
        }
        i += 1;
    }
    false
}

/// Keeps the results whose source is enabled, in their order.
pub fn retain_enabled(results: Vec<TorrentResult>, enabled: &Vec<String>) -> (kept: Vec<
    TorrentResult,
>)
    ensures
        kept@ == enabled_results(results@, enabled@),
{
    let ghost all = results@;
    let ghost pred = |r: TorrentResult| source_enabled(enabled@, r.source@);
    let mut rest = reversed(results);
    let mut kept: Vec<TorrentResult> = Vec::new();
    let ghost mut done: int = 0;
    assert(all.take(0) =~= Seq::empty());
    while rest.len() > 0
        invariant
            0 <= done <= all.len(),
            done + rest.len() == all.len(),
            rest@ == all.reverse().take(rest.len() as int),
            kept@ == all.take(done).filter(pred),
            pred == |r: TorrentResult| source_enabled(enabled@, r.source@),
        decreases rest.len(),
    {
        let x = rest.pop().unwrap();
        proof {
            assert(x == all[done]);
            assert(all.take(done + 1) =~= all.take(done).push(x));
            all.take(done).lemma_filter_push(x, pred);
            done = done + 1;
        }
        if is_enabled(enabled, x.source.as_str()) {
            kept.push(x);
        }
    }
    assert(all.take(done) =~= all);
    kept
}

/// Adding one adapter's outcome adds its list at the end.
pub proof fn lemma_merged_push(outcomes: Seq<Option<Vec<TorrentResult>>>, o: Option<Vec<TorrentResult>>)
    ensures
        merged(outcomes.push(o)) == merged(outcomes) + outcome_list(o),
{
    let f = |o: Option<Vec<TorrentResult>>| outcome_list(o);
    outcomes.lemma_push_map_commute(f, o);
    outcomes.map_values(f).lemma_flatten_push(outcome_list(o));
}

/// The lists of the adapters that did not fail, one after the other in the
/// order of the adapters.
pub fn merge_outcomes(outcomes: Vec<Option<Vec<TorrentResult>>>) -> (all: Vec<TorrentResult>)
    ensures
        all@ == merged(outcomes@),
{
    let ghost given = outcomes@;
    let mut rest = reversed(outcomes);
    let mut all: Vec<TorrentResult> = Vec::new();
    let ghost mut done: int = 0;
    assert(merged(given.take(0)) =~= Seq::empty()) by {
        assert(given.take(0) =~= Seq::empty());
        assert(given.take(0).map_values(|o: Option<Vec<TorrentResult>>| outcome_list(o))
            =~= Seq::empty());
    }
    while rest.len() > 0
        invariant
            0 <= done <= given.len(),
            done + rest.len() == given.len(),
            rest@ == given.reverse().take(rest.len() as int),
            all@ == merged(given.take(done)),
        decreases rest.len(),
    {
        let o = rest.pop().unwrap();
        proof {
            assert(o == given[done]);
            assert(given.take(done + 1) =~= given.take(done).push(o));
            lemma_merged_push(given.take(done), o);
            done = done + 1;
        }
        match o {
            Some(mut list) => {
                all.append(&mut list);
            },
            None => {
                assert(all@ + Seq::<TorrentResult>::empty() =~= all@);
            },
        }
    }
    assert(given.take(done) =~= given);
    all
}

/// What every adapter found, merged in the order of the adapters and then
/// ordered by seeder count, highest first.
pub fn aggregate(outcomes: Vec<Option<Vec<TorrentResult>>>) -> (all: Vec<TorrentResult>)
    ensures
        is_stable_sort(merged(outcomes@), all@, Ranking::BySeeders),
{
    stable_sort(merge_outcomes(outcomes), Ranking::BySeeders)
}

/// Keeps the results of enabled sources and orders them by source priority,
/// then by seeder count, highest first.
pub fn rank_results(results: Vec<TorrentResult>, enabled: &Vec<String>) -> (ranked: Vec<
    TorrentResult,
>)
    ensures
        is_stable_sort(
            enabled_results(results@, enabled@),
            ranked@,
            Ranking::BySourceThenSeeders,
        ),
{
    stable_sort(retain_enabled(results, enabled), Ranking::BySourceThenSeeders)
}

/// The ranked list for one query: the adapters' lists merged in the order of
/// the adapters, cut down to the enabled sources, and ordered by source
/// priority, then by seeder count. An adapter that failed contributes nothing.
pub fn search(outcomes: Vec<Option<Vec<TorrentResult>>>, enabled: &Vec<String>) -> (ranked: Vec<
    TorrentResult,
>)
    ensures
        is_stable_sort(
            enabled_results(merged(outcomes@), enabled@),
            ranked@,
            Ranking::BySourceThenSeeders,
        ),
{
    rank_results(merge_outcomes(outcomes), enabled)
}

/// Where every adapter failed or found nothing, the merged list is empty.
pub proof fn lemma_nothing_found(outcomes: Seq<Option<Vec<TorrentResult>>>)
    requires
        forall|i: int| 0 <= i < outcomes.len() ==> outcome_list(#[trigger] outcomes[i]).len() == 0,
    ensures
        merged(outcomes).len() == 0,
    decreases outcomes.len(),
{
    if outcomes.len() == 0 {
        assert(outcomes.map_values(|o: Option<Vec<TorrentResult>>| outcome_list(o))
            =~= Seq::empty());
    } else {
        let front = outcomes.drop_last();
        assert(outcomes =~= front.push(outcomes.last()));
        lemma_nothing_found(front);
        lemma_merged_push(front, outcomes.last());
    }
}

/// Where every adapter failed or found nothing, the ranked list is empty,
/// whatever sources are enabled.
pub proof fn lemma_search_of_nothing(
    outcomes: Seq<Option<Vec<TorrentResult>>>,
    enabled: Seq<String>,
    ranked: Seq<TorrentResult>,
)
    requires
        forall|i: int| 0 <= i < outcomes.len() ==> outcome_list(#[trigger] outcomes[i]).len() == 0,
        is_stable_sort(
            enabled_results(merged(outcomes), enabled),
            ranked,
            Ranking::BySourceThenSeeders,
        ),
    ensures
        ranked.len() == 0,
{
    lemma_nothing_found(outcomes);
    assert(merged(outcomes) =~= Seq::empty());
}

/// A stable order is in rank order.
pub proof fn lemma_sorted_by_rank(
    input: Seq<TorrentResult>,
    output: Seq<TorrentResult>,
    ranking: Ranking,
    i: int,
    j: int,
)
    requires
        is_stable_sort(input, output, ranking),
        0 <= i <= j < output.len(),
    ensures
        key_le(rank_key(output[i], ranking), rank_key(output[j], ranking)),
{
    let (from, to) = choose|from: Seq<int>, to: Seq<int>|
        is_stable_order(input, output, ranking, from, to);
    if i < j {
        assert(key_lt(rank_key(output[i], ranking), rank_key(output[j], ranking)) || rank_key(
            output[i],
            ranking,
        ) == rank_key(output[j], ranking));
    }
}

/// Two results of equal rank leave a stable order in the order in which they
/// entered it: with `from` and `to` as in `is_stable_order`, the earlier one
/// of the input stands earlier in the output.
pub proof fn lemma_equal_rank_keeps_order(
    input: Seq<TorrentResult>,
    output: Seq<TorrentResult>,
    ranking: Ranking,
    from: Seq<int>,
    to: Seq<int>,
    a: int,
    b: int,
)
    requires
        is_stable_order(input, output, ranking, from, to),
        0 <= a < b < input.len(),
        rank_key(input[a], ranking) == rank_key(input[b], ranking),
    ensures
        0 <= to[a] < to[b] < output.len(),
        output[to[a]] == input[a],
        output[to[b]] == input[b],
{
    let i = to[a];
    let j = to[b];
    assert(from[i] == a && from[j] == b);
    assert(output[i] == input[from[i]]);
    assert(output[j] == input[from[j]]);
    if j < i {
        assert(key_lt(rank_key(output[j], ranking), rank_key(output[i], ranking)) || (rank_key(
            output[j],
            ranking,
        ) == rank_key(output[i], ranking) && from[j] < from[i]));
    }
}

/// Every result of the input stands in a stable order, and nothing else does.
pub proof fn lemma_same_results(
    input: Seq<TorrentResult>,
    output: Seq<TorrentResult>,
    ranking: Ranking,
)
    requires
        is_stable_sort(input, output, ranking),
    ensures
        output.len() == input.len(),
        forall|a: int| 0 <= a < input.len() ==> output.contains(#[trigger] input[a]),
        forall|i: int| 0 <= i < output.len() ==> input.contains(#[trigger] output[i]),
{
    let (from, to) = choose|from: Seq<int>, to: Seq<int>|
        is_stable_order(input, output, ranking, from, to);
    assert forall|a: int| 0 <= a < input.len() implies output.contains(#[trigger] input[a]) by {
        assert(from[to[a]] == a);
        assert(output[to[a]] == input[from[to[a]]]);
    }
    assert forall|i: int| 0 <= i < output.len() implies input.contains(#[trigger] output[i]) by {
        assert(output[i] == input[from[i]]);
    }
}

/// Two stable orders of one input take the item at each place from the same
/// place of the input.
proof fn lemma_same_places(
    input: Seq<TorrentResult>,
    first: Seq<TorrentResult>,
    second: Seq<TorrentResult>,
    ranking: Ranking,
    from1: Seq<int>,
    to1: Seq<int>,
    from2: Seq<int>,
    to2: Seq<int>,
    i: int,
)
    requires
        is_stable_order(input, first, ranking, from1, to1),
        is_stable_order(input, second, ranking, from2, to2),
        0 <= i < input.len(),
    ensures
        from1[i] == from2[i],
    decreases i,
{
    assert forall|k: int| 0 <= k < i implies from1[k] == from2[k] by {
        lemma_same_places(input, first, second, ranking, from1, to1, from2, to2, k);
    }
    let a = from1[i];
    let b = from2[i];
    if a != b {
        let j = to2[a];
        assert(from2[j] == a);
        if j < i {
            assert(from1[j] == from2[j]);
            assert(to1[from1[j]] == j);
            assert(to1[from1[i]] == i);
        }
        assert(i < j);
        assert(second[i] == input[from2[i]] && second[j] == input[from2[j]]);
        assert(key_lt(rank_key(second[i], ranking), rank_key(second[j], ranking)) || (rank_key(
            second[i],
            ranking,
        ) == rank_key(second[j], ranking) && from2[i] < from2[j]));
        let h = to1[b];
        assert(from1[h] == b);
        if h < i {
            assert(from1[h] == from2[h]);
            assert(to2[from2[h]] == h);
            assert(to2[from2[i]] == i);
        }
        assert(i < h);
        assert(first[i] == input[from1[i]] && first[h] == input[from1[h]]);
        assert(key_lt(rank_key(first[i], ranking), rank_key(first[h], ranking)) || (rank_key(
            first[i],
            ranking,
        ) == rank_key(first[h], ranking) && from1[i] < from1[h]));
    }
}

/// The stable order of a list is one list and no other: rank and order of
/// arrival leave no choice.
pub proof fn lemma_stable_sort_is_unique(
    input: Seq<TorrentResult>,
    first: Seq<TorrentResult>,
    second: Seq<TorrentResult>,
    ranking: Ranking,
)
    requires
        is_stable_sort(input, first, ranking),
        is_stable_sort(input, second, ranking),
    ensures
        first == second,
{
    let (from1, to1) = choose|from: Seq<int>, to: Seq<int>|
        is_stable_order(input, first, ranking, from, to);
    let (from2, to2) = choose|from: Seq<int>, to: Seq<int>|
        is_stable_order(input, second, ranking, from, to);
    assert forall|i: int| 0 <= i < first.len() implies first[i] == second[i] by {
        lemma_same_places(input, first, second, ranking, from1, to1, from2, to2, i);
        assert(first[i] == input[from1[i]]);
        assert(second[i] == input[from2[i]]);
    }
    assert(first =~= second);
}

} // verus!
