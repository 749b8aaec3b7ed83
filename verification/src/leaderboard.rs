//! Top-raffle leaderboards: at most `LEADERBOARD_CAP` raffles, highest metric
//! first, each raffle at most once.
use crate::address::Address;
use vstd::prelude::*;
use vstd::seq_lib::*;

verus! {

/// The number of raffles a leaderboard keeps.
pub const LEADERBOARD_CAP: u32 = 10;

/// Metrics are non-increasing along the board.
pub open spec fn ranked(s: Seq<(Address, i128)>) -> bool {
    forall|i: int, j: int| 0 <= i < j < s.len() ==> #[trigger] s[i].1 >= #[trigger] s[j].1
}

/// Entries that belong to a raffle other than `raffle`.
pub open spec fn other_raffle(raffle: Seq<char>) -> spec_fn((Address, i128)) -> bool {
    |e: (Address, i128)| e.0@ != raffle
}

/// The board's entries for other raffles, followed by the new entry.
pub open spec fn candidates(board: Seq<(Address, i128)>, raffle: Address, metric: i128) -> Seq<
    (Address, i128),
> {
    board.filter(other_raffle(raffle@)).push((raffle, metric))
}

/// `result` is the first `cap` entries of some ranking of `pool`.
pub open spec fn top_of(result: Seq<(Address, i128)>, pool: Seq<(Address, i128)>, cap: int) -> bool {
    exists|order: Seq<(Address, i128)>|
        #![trigger ranked(order)]
        order.to_multiset() == pool.to_multiset() && ranked(order) && result == order.take(
            if pool.len() < cap {
                pool.len() as int
            } else {
                cap
            },
        )
}

/// Each raffle appears at most once.
pub open spec fn one_entry_per_raffle(s: Seq<(Address, i128)>) -> bool {
    forall|i: int, j: int| 0 <= i < j < s.len() ==> #[trigger] s[i].0@ != #[trigger] s[j].0@
}

fn copy_entry(e: &(Address, i128)) -> (r: (Address, i128))
    ensures
        r == *e,
{
    (e.0.duplicate(), e.1)
}

/// One sweep of the exchange sort at position `i`, from position `j` on:
/// each later entry whose metric is strictly above the one now at `i`
/// trades places with it.
pub open spec fn sweep(s: Seq<(Address, i128)>, i: int, j: int) -> Seq<(Address, i128)>
    decreases s.len() - j,
{
    if i < 0 || i >= s.len() || j < 0 || j >= s.len() {
        s
    } else {
        let t = if s[j].1 > s[i].1 {
            s.update(i, s[j]).update(j, s[i])
        } else {
            s
        };
        proof {
            assert(t.len() == s.len());
        }
        sweep(t, i, j + 1)
    }
}

/// A sweep keeps the length.
pub proof fn lemma_sweep_len(s: Seq<(Address, i128)>, i: int, j: int)
    requires
        0 <= i < s.len(),
    ensures
        sweep(s, i, j).len() == s.len(),
    decreases s.len() - j,
{
    if 0 <= j < s.len() {
        let t = if s[j].1 > s[i].1 {
            s.update(i, s[j]).update(j, s[i])
        } else {
            s
        };
        lemma_sweep_len(t, i, j + 1);
    }
}

/// The exchange sort from position `i` on: a sweep at each position in
/// turn.
pub open spec fn exchange_sorted_from(s: Seq<(Address, i128)>, i: int) -> Seq<(Address, i128)>
    decreases s.len() - i,
{
    if i < 0 || i >= s.len() {
        s
    } else {
        proof {
            lemma_sweep_len(s, i, i + 1);
        }
        exchange_sorted_from(sweep(s, i, i + 1), i + 1)
    }
}

/// The order the leaderboard's exchange sort puts `s` in: highest metric
/// first, ties in the order the exchanges leave them.
pub open spec fn exchange_sorted(s: Seq<(Address, i128)>) -> Seq<(Address, i128)> {
    exchange_sorted_from(s, 0)
}

/// The board after recording `metric` for `raffle`: the candidates in
/// exchange-sort order, cut to `LEADERBOARD_CAP` entries.
pub open spec fn ranked_board(board: Seq<(Address, i128)>, raffle: Address, metric: i128) -> Seq<
    (Address, i128),
> {
    let pool = candidates(board, raffle, metric);
    exchange_sorted(pool).take(
        if pool.len() < LEADERBOARD_CAP {
            pool.len() as int
        } else {
            LEADERBOARD_CAP as int
        },
    )
}

/// Orders `entries` by metric, highest first, by exchanging out-of-order
/// pairs.
fn rank_entries(entries: &mut Vec<(Address, i128)>)
    ensures
        final(entries)@ == exchange_sorted(old(entries)@),
        final(entries)@.to_multiset() == old(entries)@.to_multiset(),
        ranked(final(entries)@),
{
    broadcast use group_to_multiset_ensures, to_multiset_update;

    let len = entries.len();
    let ghost original = entries@.to_multiset();
    let ghost target = exchange_sorted(entries@);
    let mut i: usize = 0;
    while i < len
        invariant
            entries@.len() == len,
            exchange_sorted_from(entries@, i as int) == target,
            entries@.to_multiset() == original,
            i <= len,
            forall|a: int, b: int|
                0 <= a < b < len && a < i ==> #[trigger] entries@[a].1 >= #[trigger] entries@[b].1,
        decreases len - i,
    {
        let ghost start = entries@;
        let mut j: usize = i + 1;
        while j < len
            invariant
                entries@.len() == len,
                sweep(entries@, i as int, j as int) == sweep(start, i as int, i + 1),
                entries@.to_multiset() == original,
                i < len,
                i + 1 <= j <= len,
                forall|a: int, b: int|
                    0 <= a < b < len && a < i ==> #[trigger] entries@[a].1
                        >= #[trigger] entries@[b].1,
                forall|k: int| i < k < j ==> entries@[i as int].1 >= #[trigger] entries@[k].1,
            decreases len - j,
        {
            if entries[j].1 > entries[i].1 {
                let left = copy_entry(&entries[i]);
                let right = copy_entry(&entries[j]);
                let ghost before = entries@;
                entries.set(i, right);
                entries.set(j, left);
                proof {
                    let mid = before.update(i as int, right);
                    assert(entries@ == mid.update(j as int, left));
                    to_multiset_update(before, i as int, right);
                    to_multiset_update(mid, j as int, left);
                    assert(before[i as int] == left);
                    assert(mid[j as int] == right);
                    assert(mid.to_multiset() == original.insert(right).remove(left));
                    assert(entries@.to_multiset() == mid.to_multiset().insert(left).remove(right));
                    assert(before.contains(left));
                    assert(before.contains(right));
                    assert(before.to_multiset() == original);
                    to_multiset_contains(before, left);
                    to_multiset_contains(before, right);
                    assert(before.to_multiset().count(left) > 0);
                    assert(before.to_multiset().count(right) > 0);
                    assert(entries@.to_multiset() =~= original);
                    assert forall|a: int, b: int|
                        0 <= a < b < len && a < i implies #[trigger] entries@[a].1
                        >= #[trigger] entries@[b].1 by {
                        assert(before[a].1 >= before[i as int].1);
                        assert(before[a].1 >= before[j as int].1);
                        assert(before[a].1 >= before[b].1);
                    }
                }
            }
            j = j + 1;
        }
        proof {
            assert(entries@ == sweep(start, i as int, i + 1));
        }
        i = i + 1;
    }
}

/// The board after recording `metric` for `raffle`: any earlier entry of
/// the raffle is replaced, entries are ranked by metric (highest first) and
/// only the top `LEADERBOARD_CAP` are kept.
pub fn rank_with_entry(board: &Vec<(Address, i128)>, raffle: &Address, metric: i128) -> (next: Vec<
    (Address, i128),
>)
    ensures
        next@ == ranked_board(board@, *raffle, metric),
        top_of(next@, candidates(board@, *raffle, metric), LEADERBOARD_CAP as int),
        ranked(next@),
        next@.len() <= LEADERBOARD_CAP,
        next@.len() == if candidates(board@, *raffle, metric).len() < LEADERBOARD_CAP {
            candidates(board@, *raffle, metric).len() as int
        } else {
            LEADERBOARD_CAP as int
        },
        one_entry_per_raffle(board@) ==> one_entry_per_raffle(next@),
{
    broadcast use group_to_multiset_ensures;

    let ghost keep = other_raffle(raffle@);
    let mut next: Vec<(Address, i128)> = Vec::new();
    let mut i: usize = 0;
    while i < board.len()
        invariant
            i <= board@.len(),
            keep == other_raffle(raffle@),
            next@ == board@.take(i as int).filter(keep),
        decreases board@.len() - i,
    {
        proof {
            assert(board@.take(i + 1) == board@.take(i as int).push(board@[i as int]));
            board@.take(i as int).lemma_filter_push(board@[i as int], keep);
        }
        if !board[i].0.same_as(raffle) {
            next.push(copy_entry(&board[i]));
        }
        i = i + 1;
    }
    proof {
        assert(board@.take(board@.len() as int) == board@);
    }
    next.push((raffle.duplicate(), metric));
    let ghost pool = next@;
    assert(pool == candidates(board@, *raffle, metric));
    rank_entries(&mut next);
    let ghost order = next@;
    while next.len() > LEADERBOARD_CAP as usize
        invariant
            ranked(order),
            next@.len() <= order.len(),
            next@.len() >= if order.len() < LEADERBOARD_CAP {
                order.len() as int
            } else {
                LEADERBOARD_CAP as int
            },
            next@ == order.take(next@.len() as int),
        decreases next@.len(),
    {
        next.pop();
        proof {
            assert(next@ =~= order.take(next@.len() as int));
        }
    }
    proof {
        assert(order.len() == pool.len()) by {
            assert(order.to_multiset().len() == pool.to_multiset().len());
        }
        assert(ranked(next@));
        assert(top_of(next@, pool, LEADERBOARD_CAP as int));
        if one_entry_per_raffle(board@) {
            lemma_one_entry_per_raffle(board@, *raffle, metric, order, next@);
        }
    }
    next
}

proof fn lemma_one_entry_per_raffle(
    board: Seq<(Address, i128)>,
    raffle: Address,
    metric: i128,
    order: Seq<(Address, i128)>,
    kept: Seq<(Address, i128)>,
)
    requires
        one_entry_per_raffle(board),
        order.to_multiset() == candidates(board, raffle, metric).to_multiset(),
        kept == order.take(kept.len() as int),
        kept.len() <= order.len(),
    ensures
        one_entry_per_raffle(kept),
{
    broadcast use group_to_multiset_ensures;

    let pool = candidates(board, raffle, metric);
    let others = board.filter(other_raffle(raffle@));
    lemma_filter_one_entry(board, raffle@);
    assert(one_entry_per_raffle(pool)) by {
        assert forall|i: int, j: int| 0 <= i < j < pool.len() implies #[trigger] pool[i].0@
            != #[trigger] pool[j].0@ by {
            if j == pool.len() - 1 {
                board.lemma_filter_pred(other_raffle(raffle@), i);
            }
        }
    }
    lemma_permutation_keeps_distinct_names(pool, order);
}

proof fn lemma_filter_one_entry(board: Seq<(Address, i128)>, raffle: Seq<char>)
    requires
        one_entry_per_raffle(board),
    ensures
        one_entry_per_raffle(board.filter(other_raffle(raffle))),
    decreases board.len(),
{
    if board.len() > 0 {
        let init = board.drop_last();
        assert(one_entry_per_raffle(init));
        lemma_filter_one_entry(init, raffle);
        assert(board == init.push(board.last()));
        init.lemma_filter_push(board.last(), other_raffle(raffle));
        let f = init.filter(other_raffle(raffle));
        if other_raffle(raffle)(board.last()) {
            assert forall|i: int, j: int| 0 <= i < j < f.len() + 1 implies #[trigger] f.push(
                board.last(),
            )[i].0@ != #[trigger] f.push(board.last())[j].0@ by {
                if j == f.len() {
                    init.lemma_filter_contains_rev(other_raffle(raffle), f[i]);
                    let k = choose|k: int| 0 <= k < init.len() && init[k] == f[i];
                    assert(board[k] == init[k]);
                    assert(board[k].0@ != board[board.len() - 1].0@);
                }
            }
        }
    }
}

proof fn lemma_permutation_keeps_distinct_names(pool: Seq<(Address, i128)>, order: Seq<(Address, i128)>)
    requires
        one_entry_per_raffle(pool),
        order.to_multiset() == pool.to_multiset(),
    ensures
        one_entry_per_raffle(order),
{
    broadcast use group_to_multiset_ensures;

    assert forall|i: int, j: int| 0 <= i < j < pool.len() implies pool[i] != pool[j] by {
        assert(pool[i].0@ != pool[j].0@);
    }
    assert forall|i: int, j: int| 0 <= i < j < order.len() implies #[trigger] order[i].0@
        != #[trigger] order[j].0@ by {
        if order[i].0@ == order[j].0@ {
            assert(order.contains(order[i]));
            assert(order.contains(order[j]));
            assert(order.to_multiset().count(order[i]) > 0);
            assert(order.to_multiset().count(order[j]) > 0);
            assert(pool.to_multiset().count(order[i]) > 0);
            assert(pool.to_multiset().count(order[j]) > 0);
            assert(pool.contains(order[i]));
            assert(pool.contains(order[j]));
            let a = choose|a: int| 0 <= a < pool.len() && pool[a] == order[i];
            let b = choose|b: int| 0 <= b < pool.len() && pool[b] == order[j];
            if a == b {
                lemma_count_two(order, i, j);
                lemma_distinct_count(pool, order[i]);
            } else if a < b {
                assert(pool[a].0@ != pool[b].0@);
            } else {
                assert(pool[b].0@ != pool[a].0@);
            }
        }
    }
}

proof fn lemma_count_two(s: Seq<(Address, i128)>, i: int, j: int)
    requires
        0 <= i < j < s.len(),
        s[i] == s[j],
    ensures
        s.to_multiset().count(s[i]) >= 2,
{
    broadcast use group_to_multiset_ensures;

    let x = s[i];
    let r = s.remove(j);
    assert(r[i] == x);
    assert(r.contains(x));
    assert(s.to_multiset().remove(s[j]) == r.to_multiset());
    assert(r.to_multiset().count(x) > 0);
    assert(s.to_multiset().count(x) > 0);
}

proof fn lemma_distinct_count(s: Seq<(Address, i128)>, x: (Address, i128))
    requires
        forall|i: int, j: int| 0 <= i < j < s.len() ==> s[i] != s[j],
    ensures
        s.to_multiset().count(x) <= 1,
    decreases s.len(),
{
    broadcast use group_to_multiset_ensures;

    if s.len() > 0 {
        let init = s.drop_last();
        lemma_distinct_count(init, x);
        assert(s == init.push(s.last()));
        if s.last() == x && init.contains(x) {
            let k = choose|k: int| 0 <= k < init.len() && init[k] == x;
            assert(s[k] == s[s.len() - 1]);
        }
    }
}

} // verus!
