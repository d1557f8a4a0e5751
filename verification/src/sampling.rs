//! Which tickets win: rejection sampling without replacement.
//!
//! The samples of [`crate::lcg`] are taken in order. One is accepted if it lies
//! below the largest multiple of the ticket count (so that no remainder is
//! favoured) and its remainder is a ticket that has not won yet. Only where more
//! winners are asked for than there are tickets may a ticket win again.

use crate::lcg::{full_period, next_sample, sample_after};
use vstd::prelude::*;

verus! {

/// The largest multiple of `n` that rejection sampling keeps whole: samples at
/// or above it are thrown away.
pub open spec fn largest_multiple(n: u32) -> int {
    (u64::MAX as int / n as int) * n as int
}

/// The ticket index that a sample stands for.
pub open spec fn index_of_sample(x: u64, n: u32) -> u32 {
    (x as int % n as int) as u32
}

/// Whether a sample yields a new winner among `n` tickets.
pub open spec fn accepts(x: u64, n: u32, chosen: Seq<u32>) -> bool {
    x < largest_multiple(n) && !chosen.contains(index_of_sample(x, n))
}

/// Whether the sample `k` places behind `x` is the first that is accepted.
pub open spec fn first_accepted_at(x: u64, n: u32, chosen: Seq<u32>, k: nat) -> bool {
    &&& accepts(sample_after(x, k), n, chosen)
    &&& forall|j: nat| j < k ==> !accepts(#[trigger] sample_after(x, j), n, chosen)
}

/// The first accepted sample of the stream that starts at `x`.
pub open spec fn first_accepted(x: u64, n: u32, chosen: Seq<u32>) -> u64 {
    sample_after(x, choose|k: nat| first_accepted_at(x, n, chosen, k))
}

/// The winners, when `chosen` have won already and the stream stands at `x`.
pub open spec fn winners_from(x: u64, n: u32, chosen: Seq<u32>, count: nat) -> Seq<u32>
    decreases count,
{
    if count == 0 {
        chosen
    } else {
        let y = first_accepted(x, n, chosen);
        winners_from(next_sample(y), n, chosen.push(index_of_sample(y, n)), (count - 1) as nat)
    }
}

/// How many winners are drawn: as many as are asked for, but no more than there
/// are tickets.
pub open spec fn effective_count(total_tickets: u32, winner_count: u32) -> nat {
    if winner_count < total_tickets {
        winner_count as nat
    } else {
        total_tickets as nat
    }
}

/// The winning ticket indices that a seed leads to, in the order of the draw.
pub open spec fn winning_indices(seed: u64, total_tickets: u32, winner_count: u32) -> Seq<u32> {
    winners_from(seed, total_tickets, Seq::empty(), effective_count(total_tickets, winner_count))
}

/// The ticket indices that the stream leads to when a ticket may win again: those of
/// the next `count` samples below the rejection bound, behind the ones in `drawn`.
pub open spec fn indices_with_repeats_from(x: u64, n: u32, drawn: Seq<u32>, count: nat) -> Seq<u32>
    decreases count,
{
    if count == 0 {
        drawn
    } else {
        let y = first_accepted(x, n, Seq::empty());
        indices_with_repeats_from(
            next_sample(y),
            n,
            drawn.push(index_of_sample(y, n)),
            (count - 1) as nat,
        )
    }
}

/// The ticket indices that a seed leads to, one for each winner that is asked for. No
/// ticket comes twice as long as there are enough; where more winners are asked for
/// than there are tickets, tickets may come again. Without tickets there is none.
pub open spec fn requested_indices(seed: u64, total_tickets: u32, winner_count: u32) -> Seq<u32> {
    if total_tickets == 0 || winner_count <= total_tickets {
        winning_indices(seed, total_tickets, winner_count)
    } else {
        indices_with_repeats_from(seed, total_tickets, Seq::empty(), winner_count as nat)
    }
}

/// A list of different ticket indices.
pub open spec fn distinct_indices(indices: Seq<u32>, total_tickets: u32) -> bool {
    &&& indices.no_duplicates()
    &&& forall|i: int| 0 <= i < indices.len() ==> #[trigger] indices[i] < total_tickets
}

/// A full draw: different tickets, as many as are to win.
pub open spec fn is_draw(indices: Seq<u32>, total_tickets: u32, winner_count: u32) -> bool {
    &&& distinct_indices(indices, total_tickets)
    &&& indices.len() == effective_count(total_tickets, winner_count)
}

/// As long as fewer tickets have won than there are, one has not.
pub proof fn some_ticket_is_left(chosen: Seq<u32>, n: u32)
    requires
        distinct_indices(chosen, n),
        chosen.len() < n,
    ensures
        exists|t: u32| t < n && !#[trigger] chosen.contains(t),
{
    if forall|t: u32| t < n ==> #[trigger] chosen.contains(t) {
        let all = Seq::new(n as nat, |i: int| i as u32);
        assert(all.no_duplicates());
        all.unique_seq_to_set();
        chosen.unique_seq_to_set();
        assert(all.to_set().subset_of(chosen.to_set())) by {
            assert forall|t: u32| all.to_set().contains(t) implies chosen.to_set().contains(t) by {
                assert(all.contains(t));
                assert(chosen.contains(t));
            }
        }
        vstd::set_lib::lemma_len_subset(all.to_set(), chosen.to_set());
    }
}

/// The draw always goes on: whatever the stream stands at, a sample that yields
/// a new winner follows, as long as a ticket is left.
pub proof fn draw_always_ends(x: u64, n: u32, chosen: Seq<u32>)
    requires
        distinct_indices(chosen, n),
        chosen.len() < n,
    ensures
        exists|k: nat| first_accepted_at(x, n, chosen, k),
{
    some_ticket_is_left(chosen, n);
    let t = choose|t: u32| t < n && !#[trigger] chosen.contains(t);
    let y = t as u64;
    assert(u64::MAX as int / n as int >= 1 && largest_multiple(n) >= n) by (nonlinear_arith)
        requires
            0 < n <= u32::MAX,
            largest_multiple(n) == (u64::MAX as int / n as int) * n as int,
    ;
    assert(y as int % n as int == t) by {
        vstd::arithmetic::div_mod::lemma_small_mod(y as nat, n as nat);
    }
    full_period(x, y);
    let k = choose|k: nat| k < crate::lcg::modulus() && #[trigger] sample_after(x, k) == y;
    assert(accepts(sample_after(x, k), n, chosen));
    lemma_least(x, n, chosen, k);
}

proof fn lemma_least(x: u64, n: u32, chosen: Seq<u32>, k: nat)
    requires
        accepts(sample_after(x, k), n, chosen),
    ensures
        exists|m: nat| first_accepted_at(x, n, chosen, m),
    decreases k,
{
    if !first_accepted_at(x, n, chosen, k) {
        let j = choose|j: nat| j < k && accepts(#[trigger] sample_after(x, j), n, chosen);
        lemma_least(x, n, chosen, j);
    }
}

/// The place of the first accepted sample is the only such place.
proof fn lemma_first_unique(x: u64, n: u32, chosen: Seq<u32>, a: nat, b: nat)
    requires
        first_accepted_at(x, n, chosen, a),
        first_accepted_at(x, n, chosen, b),
    ensures
        a == b,
{
    if a < b {
        assert(!accepts(sample_after(x, a), n, chosen));
    } else if b < a {
        assert(!accepts(sample_after(x, b), n, chosen));
    }
}

/// An accepted sample is itself the first accepted one.
pub proof fn accepted_comes_first(x: u64, n: u32, chosen: Seq<u32>)
    requires
        accepts(x, n, chosen),
    ensures
        first_accepted(x, n, chosen) == x,
{
    assert(sample_after(x, 0) == x);
    assert(first_accepted_at(x, n, chosen, 0));
    let k = choose|k: nat| first_accepted_at(x, n, chosen, k);
    lemma_first_unique(x, n, chosen, 0, k);
}

/// A rejected sample is passed over.
pub proof fn rejected_is_passed_over(x: u64, n: u32, chosen: Seq<u32>, k: nat)
    requires
        !accepts(x, n, chosen),
        first_accepted_at(x, n, chosen, k),
    ensures
        k > 0,
        first_accepted_at(next_sample(x), n, chosen, (k - 1) as nat),
        first_accepted(next_sample(x), n, chosen) == first_accepted(x, n, chosen),
{
    assert(sample_after(x, 0) == x);
    let y = next_sample(x);
    let k1 = (k - 1) as nat;
    assert(sample_after(x, k) == sample_after(y, k1));
    assert forall|j: nat| j < k1 implies !accepts(#[trigger] sample_after(y, j), n, chosen) by {
        assert(sample_after(x, j + 1) == sample_after(y, j));
    }
    assert(first_accepted_at(y, n, chosen, k1));
    let a = choose|a: nat| first_accepted_at(x, n, chosen, a);
    let b = choose|b: nat| first_accepted_at(y, n, chosen, b);
    lemma_first_unique(x, n, chosen, a, k);
    lemma_first_unique(y, n, chosen, b, k1);
}

proof fn lemma_winners_from(x: u64, n: u32, chosen: Seq<u32>, count: nat)
    requires
        distinct_indices(chosen, n),
        chosen.len() + count <= n,
    ensures
        distinct_indices(winners_from(x, n, chosen, count), n),
        winners_from(x, n, chosen, count).len() == chosen.len() + count,
    decreases count,
{
    if count > 0 {
        draw_always_ends(x, n, chosen);
        let y = first_accepted(x, n, chosen);
        let t = index_of_sample(y, n);
        assert(accepts(y, n, chosen));
        assert(0 <= y as int % n as int && y as int % (n as int) < n) by {
            vstd::arithmetic::div_mod::lemma_mod_bound(y as int, n as int);
        }
        assert(distinct_indices(chosen.push(t), n));
        lemma_winners_from(next_sample(y), n, chosen.push(t), (count - 1) as nat);
    }
}

/// Every seed leads to a full draw: the winners are different tickets, all of
/// them sold, and as many as there are prizes, or all tickets if there are fewer.
pub proof fn winners_are_distinct_tickets(seed: u64, total_tickets: u32, winner_count: u32)
    ensures
        is_draw(winning_indices(seed, total_tickets, winner_count), total_tickets, winner_count),
{
    lemma_winners_from(
        seed,
        total_tickets,
        Seq::empty(),
        effective_count(total_tickets, winner_count),
    );
}

proof fn lemma_winners_prefix(x: u64, n: u32, chosen: Seq<u32>, fewer: nat, more: nat)
    requires
        fewer <= more,
    ensures
        winners_from(x, n, chosen, more).len() == chosen.len() + more,
        winners_from(x, n, chosen, fewer) == winners_from(x, n, chosen, more).take(
            (chosen.len() + fewer) as int,
        ),
    decreases more,
{
    let y = first_accepted(x, n, chosen);
    let longer = chosen.push(index_of_sample(y, n));
    if more == 0 {
        assert(chosen.take(chosen.len() as int) =~= chosen);
    } else if fewer == 0 {
        lemma_winners_prefix(next_sample(y), n, longer, 0, (more - 1) as nat);
        let all = winners_from(x, n, chosen, more);
        assert(all.take(longer.len() as int) == longer);
        assert forall|i: int| 0 <= i < chosen.len() implies #[trigger] all[i] == chosen[i] by {
            assert(all.take(longer.len() as int)[i] == longer[i]);
        }
        assert(all.take(chosen.len() as int) =~= chosen);
    } else {
        lemma_winners_prefix(next_sample(y), n, longer, (fewer - 1) as nat, (more - 1) as nat);
    }
}

proof fn lemma_repeats_prefix(x: u64, n: u32, drawn: Seq<u32>, fewer: nat, more: nat)
    requires
        fewer <= more,
    ensures
        indices_with_repeats_from(x, n, drawn, more).len() == drawn.len() + more,
        indices_with_repeats_from(x, n, drawn, fewer) == indices_with_repeats_from(
            x,
            n,
            drawn,
            more,
        ).take((drawn.len() + fewer) as int),
    decreases more,
{
    let y = first_accepted(x, n, Seq::empty());
    let longer = drawn.push(index_of_sample(y, n));
    if more == 0 {
        assert(drawn.take(drawn.len() as int) =~= drawn);
    } else if fewer == 0 {
        lemma_repeats_prefix(next_sample(y), n, longer, 0, (more - 1) as nat);
        let all = indices_with_repeats_from(x, n, drawn, more);
        assert(all.take(longer.len() as int) == longer);
        assert forall|i: int| 0 <= i < drawn.len() implies #[trigger] all[i] == drawn[i] by {
            assert(all.take(longer.len() as int)[i] == longer[i]);
        }
        assert(all.take(drawn.len() as int) =~= drawn);
    } else {
        lemma_repeats_prefix(next_sample(y), n, longer, (fewer - 1) as nat, (more - 1) as nat);
    }
}

/// The winners of a draw for fewer prizes are the first ones of a draw for more: a
/// further prize leaves the winners before it as they are.
pub proof fn fewer_winners_are_the_first(seed: u64, total_tickets: u32, fewer: u32, more: u32)
    requires
        fewer <= more,
    ensures
        winning_indices(seed, total_tickets, fewer) == winning_indices(
            seed,
            total_tickets,
            more,
        ).take(effective_count(total_tickets, fewer) as int),
{
    lemma_winners_prefix(
        seed,
        total_tickets,
        Seq::empty(),
        effective_count(total_tickets, fewer),
        effective_count(total_tickets, more),
    );
}

/// Of the indices on request, the first `fewer` are those of a request for `fewer`,
/// as long as both requests or neither ask for more winners than there are tickets.
pub proof fn smaller_requests_give_the_first(
    seed: u64,
    total_tickets: u32,
    fewer: u32,
    more: u32,
)
    requires
        fewer <= more,
        total_tickets > 0,
        more <= total_tickets || total_tickets < fewer,
    ensures
        requested_indices(seed, total_tickets, fewer) == requested_indices(
            seed,
            total_tickets,
            more,
        ).take(fewer as int),
{
    if more <= total_tickets {
        fewer_winners_are_the_first(seed, total_tickets, fewer, more);
    } else {
        lemma_repeats_prefix(seed, total_tickets, Seq::empty(), fewer as nat, more as nat);
    }
}

proof fn lemma_repeats_in_range(x: u64, n: u32, drawn: Seq<u32>, count: nat)
    requires
        n > 0,
        forall|i: int| 0 <= i < drawn.len() ==> #[trigger] drawn[i] < n,
    ensures
        indices_with_repeats_from(x, n, drawn, count).len() == drawn.len() + count,
        forall|i: int|
            0 <= i < drawn.len() + count ==> #[trigger] indices_with_repeats_from(
                x,
                n,
                drawn,
                count,
            )[i] < n,
    decreases count,
{
    if count > 0 {
        let y = first_accepted(x, n, Seq::empty());
        vstd::arithmetic::div_mod::lemma_mod_bound(y as int, n as int);
        lemma_repeats_in_range(
            next_sample(y),
            n,
            drawn.push(index_of_sample(y, n)),
            (count - 1) as nat,
        );
    }
}

/// A request is met in full as soon as there is a ticket: as many indices come out as
/// are asked for, all of tickets that exist.
pub proof fn requests_are_met(seed: u64, total_tickets: u32, winner_count: u32)
    requires
        total_tickets > 0,
    ensures
        requested_indices(seed, total_tickets, winner_count).len() == winner_count,
        forall|i: int|
            0 <= i < winner_count ==> #[trigger] requested_indices(
                seed,
                total_tickets,
                winner_count,
            )[i] < total_tickets,
{
    if winner_count <= total_tickets {
        winners_are_distinct_tickets(seed, total_tickets, winner_count);
    } else {
        lemma_repeats_in_range(seed, total_tickets, Seq::empty(), winner_count as nat);
    }
}

/// Indices on request in which no ticket comes twice are the winners of the draw.
pub proof fn requests_without_repeats_are_the_draw(
    seed: u64,
    total_tickets: u32,
    winner_count: u32,
)
    requires
        requested_indices(seed, total_tickets, winner_count).no_duplicates(),
    ensures
        requested_indices(seed, total_tickets, winner_count) == winning_indices(
            seed,
            total_tickets,
            winner_count,
        ),
{
    let indices = requested_indices(seed, total_tickets, winner_count);
    if 0 < total_tickets < winner_count {
        requests_are_met(seed, total_tickets, winner_count);
        lemma_no_more_than_all(indices, total_tickets);
    }
}

/// Different tickets are no more than there are.
proof fn lemma_no_more_than_all(indices: Seq<u32>, n: u32)
    requires
        distinct_indices(indices, n),
    ensures
        indices.len() <= n,
{
    let all = Seq::new(n as nat, |i: int| i as u32);
    indices.unique_seq_to_set();
    all.unique_seq_to_set();
    assert(indices.to_set().subset_of(all.to_set())) by {
        assert forall|t: u32| indices.to_set().contains(t) implies all.to_set().contains(t) by {
            assert(indices.contains(t));
            assert(all[t as int] == t);
        }
    }
    vstd::set_lib::lemma_len_subset(indices.to_set(), all.to_set());
}

/// Whether the winner at place `i` is the next new one of a stream: some sample of the
/// stream stands for it, below the last whole round of the tickets, and each sample before
/// that one lies at or above that bound or stands for a winner at an earlier place.
#[verifier::opaque]
pub open spec fn is_next_new(seed: u64, total_tickets: u32, winners: Seq<u32>, i: int) -> bool {
    let n = total_tickets as int;
    let bound = u64::MAX as int / n * n;
    exists|k: nat|
        {
            &&& (#[trigger] sample_after(seed, k)) < bound
            &&& sample_after(seed, k) as int % n == winners[i]
            &&& forall|j: nat|
                j < k ==> #[trigger] sample_after(seed, j) >= bound || winners.take(i).contains(
                    (sample_after(seed, j) as int % n) as u32,
                )
        }
}

proof fn lemma_samples_add(x: u64, a: nat, b: nat)
    ensures
        sample_after(sample_after(x, a), b) == sample_after(x, a + b),
    decreases a,
{
    if a > 0 {
        lemma_samples_add(next_sample(x), (a - 1) as nat, b);
    }
}

/// Whether none of the first `m` samples of a stream yields a new winner.
#[verifier::opaque]
spec fn pass_over(seed: u64, n: u32, chosen: Seq<u32>, m: nat) -> bool {
    forall|j: nat| j < m ==> !accepts(#[trigger] sample_after(seed, j), n, chosen)
}

/// The place in the stream of the sample that yields the next winner.
proof fn lemma_next_place(seed: u64, n: u32, m: nat, chosen: Seq<u32>) -> (at: nat)
    requires
        distinct_indices(chosen, n),
        chosen.len() < n,
        pass_over(seed, n, chosen, m),
    ensures
        pass_over(seed, n, chosen, at),
        sample_after(seed, at) == first_accepted(sample_after(seed, m), n, chosen),
        accepts(sample_after(seed, at), n, chosen),
        sample_after(seed, at + 1) == next_sample(sample_after(seed, at)),
{
    reveal(pass_over);
    let x = sample_after(seed, m);
    draw_always_ends(x, n, chosen);
    let k = choose|k: nat| first_accepted_at(x, n, chosen, k);
    let at = m + k;
    lemma_samples_add(seed, m, k);
    lemma_samples_add(seed, at, 1);
    let y = sample_after(seed, at);
    assert(sample_after(next_sample(y), 0) == next_sample(y));
    assert forall|j: nat| j < at implies !accepts(#[trigger] sample_after(seed, j), n, chosen) by {
        if j >= m {
            lemma_samples_add(seed, m, (j - m) as nat);
            assert(!accepts(sample_after(x, (j - m) as nat), n, chosen));
        }
    }
    at
}

/// The sample that is accepted next makes the next new winner.
proof fn lemma_is_next_new(seed: u64, n: u32, chosen: Seq<u32>, at: nat)
    requires
        n > 0,
        pass_over(seed, n, chosen, at),
        accepts(sample_after(seed, at), n, chosen),
    ensures
        is_next_new(
            seed,
            n,
            chosen.push(index_of_sample(sample_after(seed, at), n)),
            chosen.len() as int,
        ),
{
    reveal(is_next_new);
    reveal(pass_over);
    let y = sample_after(seed, at);
    let longer = chosen.push(index_of_sample(y, n));
    assert(longer.take(chosen.len() as int) =~= chosen);
    vstd::arithmetic::div_mod::lemma_mod_bound(y as int, n as int);
    assert forall|j: nat| j < at implies #[trigger] sample_after(seed, j) >= u64::MAX as int
        / n as int * n as int || chosen.contains(
        (sample_after(seed, j) as int % n as int) as u32,
    ) by {
        assert(!accepts(sample_after(seed, j), n, chosen));
    }
}

/// Further winners leave it as it is that a winner was the next new one.
proof fn lemma_stays_next_new(seed: u64, n: u32, chosen: Seq<u32>, t: u32, i: int)
    requires
        0 <= i < chosen.len(),
        is_next_new(seed, n, chosen, i),
    ensures
        is_next_new(seed, n, chosen.push(t), i),
{
    reveal(is_next_new);
    assert(chosen.push(t).take(i) =~= chosen.take(i));
    assert(chosen.push(t)[i] == chosen[i]);
}

/// A sample that yielded a winner yields no new one.
proof fn lemma_pass_over_winner(seed: u64, n: u32, chosen: Seq<u32>, at: nat)
    requires
        pass_over(seed, n, chosen, at),
    ensures
        pass_over(seed, n, chosen.push(index_of_sample(sample_after(seed, at), n)), at + 1),
{
    reveal(pass_over);
    let t = index_of_sample(sample_after(seed, at), n);
    let longer = chosen.push(t);
    assert(longer[chosen.len() as int] == t);
    assert forall|j: nat| j < at + 1 implies !accepts(#[trigger] sample_after(seed, j), n, longer) by {
        if j < at {
            assert(!accepts(sample_after(seed, j), n, chosen));
            if chosen.contains(index_of_sample(sample_after(seed, j), n)) {
                let p = chosen.index_of(index_of_sample(sample_after(seed, j), n));
                assert(longer[p] == chosen[p]);
            }
        }
    }
}

/// Whether each of some winners was the next new one of a stream.
#[verifier::opaque]
spec fn all_next_new(seed: u64, n: u32, winners: Seq<u32>) -> bool {
    forall|i: int| 0 <= i < winners.len() ==> #[trigger] is_next_new(seed, n, winners, i)
}

/// The next winner of a stream, and where the stream stands after it.
proof fn lemma_next_winner(seed: u64, n: u32, m: nat, chosen: Seq<u32>) -> (next: nat)
    requires
        distinct_indices(chosen, n),
        chosen.len() < n,
        pass_over(seed, n, chosen, m),
        all_next_new(seed, n, chosen),
    ensures
        ({
            let y = first_accepted(sample_after(seed, m), n, chosen);
            let longer = chosen.push(index_of_sample(y, n));
            &&& sample_after(seed, next) == next_sample(y)
            &&& distinct_indices(longer, n)
            &&& pass_over(seed, n, longer, next)
            &&& all_next_new(seed, n, longer)
        }),
{
    let at = lemma_next_place(seed, n, m, chosen);
    let y = sample_after(seed, at);
    let t = index_of_sample(y, n);
    let longer = chosen.push(t);
    lemma_is_next_new(seed, n, chosen, at);
    lemma_pass_over_winner(seed, n, chosen, at);
    assert(distinct_indices(longer, n)) by {
        vstd::arithmetic::div_mod::lemma_mod_bound(y as int, n as int);
    }
    assert(all_next_new(seed, n, longer)) by {
        reveal(all_next_new);
        assert forall|i: int| 0 <= i < longer.len() implies #[trigger] is_next_new(
            seed,
            n,
            longer,
            i,
        ) by {
            if i < chosen.len() {
                lemma_stays_next_new(seed, n, chosen, t, i);
            }
        }
    }
    at + 1
}

proof fn lemma_stream(seed: u64, n: u32, x: u64, m: nat, chosen: Seq<u32>, count: nat)
    requires
        x == sample_after(seed, m),
        distinct_indices(chosen, n),
        chosen.len() + count <= n,
        pass_over(seed, n, chosen, m),
        all_next_new(seed, n, chosen),
    ensures
        all_next_new(seed, n, winners_from(x, n, chosen, count)),
    decreases count,
{
    if count > 0 {
        let next = lemma_next_winner(seed, n, m, chosen);
        let y = first_accepted(x, n, chosen);
        lemma_stream(
            seed,
            n,
            next_sample(y),
            next,
            chosen.push(index_of_sample(y, n)),
            (count - 1) as nat,
        );
    }
}

/// The winners come in the order of the stream that starts at the seed: each is the next
/// ticket that a sample below the rejection bound stands for and that has not won yet. No
/// sample is left out, from the seed itself on.
pub proof fn winners_come_in_the_order_of_the_stream(
    seed: u64,
    total_tickets: u32,
    winner_count: u32,
)
    ensures
        ({
            let winners = winning_indices(seed, total_tickets, winner_count);
            forall|i: int|
                0 <= i < winners.len() ==> #[trigger] is_next_new(seed, total_tickets, winners, i)
        }),
{
    reveal(pass_over);
    reveal(all_next_new);
    assert(sample_after(seed, 0) == seed);
    lemma_stream(
        seed,
        total_tickets,
        seed,
        0,
        Seq::empty(),
        effective_count(total_tickets, winner_count),
    );
}

/// Where a ticket may win again, the winner at place `i` is the one that the sample at
/// place `i` of those below the rejection bound stands for.
pub proof fn repeated_winners_follow_the_stream(seed: u64, total_tickets: u32, more: u32, k: nat)
    requires
        0 < total_tickets < more,
        sample_after(seed, k) < u64::MAX as int / total_tickets as int * total_tickets as int,
        forall|j: nat|
            j < k ==> #[trigger] sample_after(seed, j) >= u64::MAX as int / total_tickets as int
                * total_tickets as int,
    ensures
        requested_indices(seed, total_tickets, more)[0] == sample_after(seed, k) as int
            % total_tickets as int,
        total_tickets + 1 < more ==> requested_indices(seed, total_tickets, more).skip(1)
            == requested_indices(sample_after(seed, k + 1), total_tickets, (more - 1) as u32),
{
    let n = total_tickets;
    let none = Seq::<u32>::empty();
    assert(first_accepted_at(seed, n, none, k));
    let a = choose|a: nat| first_accepted_at(seed, n, none, a);
    lemma_first_unique(seed, n, none, a, k);
    let y = sample_after(seed, k);
    lemma_samples_add(seed, k, 1);
    assert(sample_after(next_sample(y), 0) == next_sample(y));
    let first = none.push(index_of_sample(y, n));
    vstd::arithmetic::div_mod::lemma_mod_bound(y as int, n as int);
    lemma_repeats_prefix(next_sample(y), n, first, 0, (more - 1) as nat);
    let all = requested_indices(seed, n, more);
    assert(all.take(1)[0] == first[0]);
    lemma_repeats_start(next_sample(y), n, first, none, (more - 1) as nat);
    assert(all.skip(1) =~= indices_with_repeats_from(next_sample(y), n, none, (more - 1) as nat));
}

/// What has been drawn stands before what the stream still leads to.
proof fn lemma_repeats_start(x: u64, n: u32, drawn: Seq<u32>, later: Seq<u32>, count: nat)
    ensures
        indices_with_repeats_from(x, n, drawn + later, count) == drawn + indices_with_repeats_from(
            x,
            n,
            later,
            count,
        ),
    decreases count,
{
    if count > 0 {
        let y = first_accepted(x, n, Seq::empty());
        let t = index_of_sample(y, n);
        lemma_repeats_start(next_sample(y), n, drawn, later.push(t), (count - 1) as nat);
        assert((drawn + later).push(t) =~= drawn + later.push(t));
    }
}

/// Once every ticket is to win, every ticket does.
pub proof fn every_ticket_wins_a_full_draw(seed: u64, total_tickets: u32, winner_count: u32, ticket: u32)
    requires
        ticket < total_tickets <= winner_count,
    ensures
        winning_indices(seed, total_tickets, winner_count).contains(ticket),
{
    let winners = winning_indices(seed, total_tickets, winner_count);
    winners_are_distinct_tickets(seed, total_tickets, winner_count);
    if !winners.contains(ticket) {
        lemma_no_more_than_all(winners.push(ticket), total_tickets);
    }
}

/// The samples below `blocks` whole rounds of `n` that stand for one ticket.
pub open spec fn samples_of_ticket(blocks: int, n: u32, ticket: u32) -> Set<u64> {
    Set::new(|x: u64| x < blocks * n && index_of_sample(x, n) == ticket)
}

proof fn lemma_one_sample_per_block(blocks: nat, n: u32, ticket: u32)
    requires
        ticket < n,
        blocks * n <= u64::MAX,
    ensures
        samples_of_ticket(blocks as int, n, ticket).finite(),
        samples_of_ticket(blocks as int, n, ticket).len() == blocks,
    decreases blocks,
{
    let s = samples_of_ticket(blocks as int, n, ticket);
    if blocks == 0 {
        assert(blocks * n == 0) by (nonlinear_arith)
            requires
                blocks == 0,
        ;
        assert(s =~= Set::empty());
    } else {
        let b = blocks - 1;
        assert(blocks * n == b * n + n) by (nonlinear_arith)
            requires
                b == blocks - 1,
        ;
        assert(b * n >= 0) by (nonlinear_arith)
            requires
                b >= 0,
        ;
        lemma_one_sample_per_block(b as nat, n, ticket);
        let before = samples_of_ticket(b, n, ticket);
        let x = (b * n + ticket) as u64;
        assert(s =~= before.insert(x)) by {
            assert forall|y: u64| s.contains(y) <==> before.insert(x).contains(y) by {
                vstd::arithmetic::div_mod::lemma_mod_bound(y as int, n as int);
                if b * n <= y < b * n + n {
                    vstd::arithmetic::div_mod::lemma_fundamental_div_mod_converse(
                        y as int,
                        n as int,
                        b,
                        y - b * n,
                    );
                    assert(y as int % n as int == y - b * n);
                }
            }
        }
        assert(!before.contains(x));
    }
}

/// The draw is fair: below the rejection bound every ticket is stood for by
/// equally many samples, so that none is favoured by the remainder.
pub proof fn every_ticket_is_equally_likely(n: u32, ticket: u32)
    requires
        ticket < n,
    ensures
        Set::new(|x: u64| x < largest_multiple(n) && index_of_sample(x, n) == ticket).finite(),
        Set::new(|x: u64| x < largest_multiple(n) && index_of_sample(x, n) == ticket).len()
            == u64::MAX as int / n as int,
{
    let q = u64::MAX as int / n as int;
    assert(q >= 0 && q * n <= u64::MAX) by (nonlinear_arith)
        requires
            n > 0,
            q == u64::MAX as int / n as int,
    ;
    lemma_one_sample_per_block(q as nat, n, ticket);
    assert(Set::new(|x: u64| x < largest_multiple(n) && index_of_sample(x, n) == ticket)
        =~= samples_of_ticket(q, n, ticket));
}

} // verus!
