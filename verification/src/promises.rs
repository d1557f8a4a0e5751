//! What the contract promises to those who take part.

use crate::action::{ActionView, Payment};
use crate::address::Address;
use crate::admin::{
    cancel_due, cancel_outcome, emergency_outcome, pause_outcome, pause_sales_outcome,
    rescue_outcome, wipe_outcome, withdraw_fees_outcome,
};
use crate::contract::fairness_data_of;
use crate::draw::{
    committed_hashes, end_of_sale_outcome, provide_randomness_outcome, request_ledger_of,
    sale_is_over, trigger_fallback_outcome,
};
use crate::error::Error;
use crate::helpers::{
    finalize_with_seed_outcome, lemma_shares_before, lemma_sum_of_bounds, shares_before, tier_prize,
    transition_to_drawing_outcome, winners_of, winners_refusal, winning_tickets,
};
use crate::laws::{
    after_steps, calls_take_allowed_steps, in_order, lemma_finalized, lemma_wiped,
    lists_tickets_of, not_drawn_anew, outcome_of, record_is_right, records_stay,
    records_stay_right, Call, Step,
};
use crate::payout::{
    batch_refund_tickets_outcome, claim_prize_outcome, execute_admin_cancel_outcome, given_back,
    refund_prize_outcome, refund_ticket_outcome, refunds_are_open, tier_claimed,
};
use crate::sampling::{winners_are_distinct_tickets, winning_indices};
use crate::setup::{deposit_prize_outcome, init_outcome};
use crate::store::{DataKey, FrameView, StoreView};
use crate::tickets::{
    cost_of, discounted_in, early_bird_cap, early_bird_price, lemma_costs, new_ticket_ids,
    sale_outcome,
};
use crate::types::{
    sum_of, CancelReason, CommitRevealEntry, FairnessDataView, RaffleConfigView, RaffleView,
    RandomnessType,
};
use crate::{EMERGENCY_WITHDRAW_DELAY_SECONDS, ORACLE_TIMEOUT_LEDGERS};
use vstd::prelude::*;

verus! {

/// The payments among some actions, in order.
pub open spec fn payments_in(actions: Seq<ActionView>) -> Seq<Payment>
    decreases actions.len(),
{
    if actions.len() == 0 {
        Seq::empty()
    } else {
        let earlier = payments_in(actions.drop_last());
        match actions.last() {
            ActionView::TryTransfer(payment) => earlier.push(payment),
            ActionView::Transfer(payment) => earlier.push(payment),
            _ => earlier,
        }
    }
}

/// Whether a call has had exactly one payment made.
pub open spec fn pays_once(before: FrameView, after: FrameView, payment: Payment) -> bool {
    payments_in(after.actions) == payments_in(before.actions).push(payment)
}

proof fn lemma_payments_push(actions: Seq<ActionView>, action: ActionView)
    ensures
        payments_in(actions.push(action)) == match action {
            ActionView::TryTransfer(payment) => payments_in(actions).push(payment),
            ActionView::Transfer(payment) => payments_in(actions).push(payment),
            _ => payments_in(actions),
        },
{
    assert(actions.push(action).drop_last() =~= actions);
}

/// The payments among the first actions, one action after the other.
pub proof fn lemma_payments_at(actions: Seq<ActionView>, n: int)
    requires
        0 <= n < actions.len(),
    ensures
        payments_in(actions.take(n + 1)) == match actions[n] {
            ActionView::TryTransfer(payment) => payments_in(actions.take(n)).push(payment),
            ActionView::Transfer(payment) => payments_in(actions.take(n)).push(payment),
            _ => payments_in(actions.take(n)),
        },
{
    lemma_payments_push(actions.take(n), actions[n]);
    assert(actions.take(n + 1) =~= actions.take(n).push(actions[n]));
}

/// What the first tiers of a raffle get together.
pub open spec fn prizes_before(raffle: RaffleView, tiers: int) -> int
    decreases tiers,
{
    if tiers <= 0 {
        0
    } else {
        prizes_before(raffle, tiers - 1) + tier_prize(raffle, tiers - 1)
    }
}

/// What has been claimed of the first tiers of a raffle.
pub open spec fn claimed_before(raffle: RaffleView, tiers: int) -> int
    decreases tiers,
{
    if tiers <= 0 {
        0
    } else {
        claimed_before(raffle, tiers - 1) + if raffle.claimed_winners[tiers - 1] {
            tier_prize(raffle, tiers - 1)
        } else {
            0
        }
    }
}

/// No tier gets less than nothing.
proof fn lemma_tier_prize_nonnegative(raffle: RaffleView, tier: int)
    requires
        raffle.wf(),
        0 <= tier < raffle.prizes.len(),
    ensures
        tier_prize(raffle, tier) >= 0,
{
    let amount = raffle.prize_amount as int;
    if tier == raffle.prizes.len() - 1 {
        lemma_shares_before(amount, raffle.prizes, tier);
        lemma_sum_of_bounds(raffle.prizes, tier);
        let s = sum_of(raffle.prizes.take(tier));
        assert(amount * s <= amount * 10000) by (nonlinear_arith)
            requires
                0 <= amount,
                s <= 10000,
        ;
    } else {
        let bp = raffle.prizes[tier];
        assert(0 <= amount * bp) by (nonlinear_arith)
            requires
                0 <= amount,
        ;
    }
}

proof fn lemma_prizes_are_shares(raffle: RaffleView, tiers: int)
    requires
        raffle.wf(),
        0 <= tiers < raffle.prizes.len(),
    ensures
        prizes_before(raffle, tiers) == shares_before(
            raffle.prize_amount as int,
            raffle.prizes,
            tiers,
        ),
    decreases tiers,
{
    if tiers > 0 {
        lemma_prizes_are_shares(raffle, tiers - 1);
    }
}

/// The tiers get the whole prize, to the last unit: nothing is lost in rounding.
pub proof fn tiers_share_the_whole_prize(raffle: RaffleView)
    requires
        raffle.wf(),
    ensures
        prizes_before(raffle, raffle.prizes.len() as int) == raffle.prize_amount,
        forall|tier: int|
            0 <= tier < raffle.prizes.len() ==> 0 <= #[trigger] tier_prize(raffle, tier)
                <= raffle.prize_amount,
{
    let n = raffle.prizes.len() as int;
    lemma_prizes_are_shares(raffle, n - 1);
    assert forall|tier: int| 0 <= tier < n implies 0 <= #[trigger] tier_prize(raffle, tier)
        <= raffle.prize_amount by {
        lemma_tier_prize_nonnegative(raffle, tier);
        lemma_prizes_grow(raffle, tier + 1, n);
        lemma_prizes_grow(raffle, 0, tier);
    }
}

proof fn lemma_prizes_grow(raffle: RaffleView, a: int, b: int)
    requires
        raffle.wf(),
        0 <= a <= b <= raffle.prizes.len(),
    ensures
        prizes_before(raffle, a) <= prizes_before(raffle, b),
    decreases b - a,
{
    if a < b {
        lemma_prizes_grow(raffle, a, b - 1);
        lemma_tier_prize_nonnegative(raffle, b - 1);
    }
}

proof fn lemma_claimed_bounds(raffle: RaffleView, tiers: int)
    requires
        raffle.wf(),
        0 <= tiers <= raffle.prizes.len(),
    ensures
        0 <= claimed_before(raffle, tiers) <= prizes_before(raffle, tiers),
        (forall|i: int| 0 <= i < tiers ==> raffle.claimed_winners[i]) ==> claimed_before(
            raffle,
            tiers,
        ) == prizes_before(raffle, tiers),
    decreases tiers,
{
    if tiers > 0 {
        lemma_claimed_bounds(raffle, tiers - 1);
        lemma_tier_prize_nonnegative(raffle, tiers - 1);
    }
}

/// What has been claimed never exceeds the prize, and once every tier is claimed it
/// is the whole prize.
pub proof fn claims_stay_within_the_prize(store: StoreView)
    requires
        in_order(store),
        store.raffle is Some,
    ensures
        ({
            let raffle = store.raffle->0;
            let claimed = claimed_before(raffle, raffle.winners.len() as int);
            &&& 0 <= claimed <= raffle.prize_amount
            &&& raffle.status is Claimed ==> claimed == raffle.prize_amount
        }),
{
    let raffle = store.raffle->0;
    tiers_share_the_whole_prize(raffle);
    lemma_claimed_bounds(raffle, raffle.winners.len() as int);
    lemma_prizes_grow(raffle, raffle.winners.len() as int, raffle.prizes.len() as int);
}

proof fn lemma_claim_adds(raffle: RaffleView, tier_index: u32, tiers: int)
    requires
        0 <= tiers <= raffle.claimed_winners.len(),
        tier_index < raffle.claimed_winners.len(),
        !raffle.claimed_winners[tier_index as int],
    ensures
        claimed_before(tier_claimed(raffle, tier_index), tiers) == claimed_before(raffle, tiers)
            + if tier_index < tiers {
            tier_prize(raffle, tier_index as int)
        } else {
            0
        },
    decreases tiers,
{
    if tiers > 0 {
        lemma_claim_adds(raffle, tier_index, tiers - 1);
        let after = tier_claimed(raffle, tier_index);
        assert(after.prizes == raffle.prizes && after.prize_amount == raffle.prize_amount);
        assert(tier_prize(after, tiers - 1) == tier_prize(raffle, tiers - 1));
    }
}

/// A claim that succeeds is made by the winner of the tier, after the waiting time,
/// pays exactly the tier's prize in one payment, and counts it as claimed.
pub proof fn claims_pay_winners_their_tier(f: FrameView, winner: Address, tier_index: u32)
    requires
        in_order(f.store),
        claim_prize_outcome(f, winner, tier_index).0 is Ok,
    ensures
        ({
            let raffle = f.store.raffle->0;
            let (r, after) = claim_prize_outcome(f, winner, tier_index);
            let tiers = raffle.winners.len() as int;
            &&& raffle.status is Finalized
            &&& f.ledger.timestamp >= raffle.finalized_at->0 + raffle.claim_lockup_seconds
            &&& tier_index < tiers && raffle.winners[tier_index as int] == winner
            &&& r->Ok_0 == tier_prize(raffle, tier_index as int) && r->Ok_0 > 0
            &&& pays_once(
                f,
                after,
                Payment {
                    token: raffle.prize_token,
                    from: f.ledger.contract,
                    to: winner,
                    amount: r->Ok_0,
                },
            )
            &&& claimed_before(after.store.raffle->0, tiers) == claimed_before(raffle, tiers)
                + r->Ok_0
        }),
{
    let raffle = f.store.raffle->0;
    let after = claim_prize_outcome(f, winner, tier_index).1;
    tiers_share_the_whole_prize(raffle);
    lemma_claim_adds(raffle, tier_index, raffle.winners.len() as int);
    let n = after.actions.len() as int;
    lemma_payments_push(f.actions, ActionView::RequireAuth(winner));
    let told = after.actions.take(n - 2);
    let confirmed = f.actions.push(ActionView::RequireAuth(winner));
    if n == confirmed.len() + 3 {
        lemma_payments_push(confirmed, after.actions[n - 3]);
        assert(told =~= confirmed.push(after.actions[n - 3]));
    } else {
        assert(told =~= confirmed);
    }
    lemma_payments_push(told, after.actions[n - 2]);
    lemma_payments_push(told.push(after.actions[n - 2]), after.actions[n - 1]);
    assert(after.actions =~= told.push(after.actions[n - 2]).push(after.actions[n - 1]));
}

/// A tier that was claimed stays so through every call until the raffle is called
/// off or wiped out, and nobody can claim it again.
pub proof fn tiers_are_claimed_once(f: FrameView, tier_index: u32, call: Call, claimant: Address)
    requires
        in_order(f.store),
        f.store.raffle is Some,
        f.store.raffle->0.status is Finalized || f.store.raffle->0.status is Claimed,
        tier_index < f.store.raffle->0.winners.len(),
        f.store.raffle->0.claimed_winners[tier_index as int],
    ensures
        claim_prize_outcome(f, claimant, tier_index).0 is Err,
        ({
            let after = outcome_of(f, call).1.store;
            ||| after.raffle is None
            ||| after.raffle->0.status is Cancelled
            ||| (after.raffle->0.status is Finalized || after.raffle->0.status is Claimed)
                && after.raffle->0.claimed_winners[tier_index as int]
        }),
{
    calls_take_allowed_steps(f, call);
}

/// A refund of the prize makes exactly one payment, of the prize, to the creator.
pub proof fn refunds_pay_the_prize_once(f: FrameView)
    requires
        refund_prize_outcome(f).0 is Ok,
    ensures
        pays_once(
            f,
            refund_prize_outcome(f).1,
            (Payment {
                token: f.store.raffle->0.payment_token,
                from: f.ledger.contract,
                to: f.store.raffle->0.creator,
                amount: f.store.raffle->0.prize_amount,
            }),
        ),
{
    let after = refund_prize_outcome(f).1.actions;
    let n = f.actions.len() as int;
    lemma_payments_push(f.actions, after[n]);
    lemma_payments_push(f.actions.push(after[n]), after[n + 1]);
    lemma_payments_push(f.actions.push(after[n]).push(after[n + 1]), after[n + 2]);
    assert(after =~= f.actions.push(after[n]).push(after[n + 1]).push(after[n + 2]));
}

/// A raffle whose sale ends without a ticket sold fails, whatever number of tickets
/// it asked for, and its creator can then take the prize back, in exactly one payment.
pub proof fn unsold_raffles_return_the_prize(f: FrameView, g: FrameView)
    requires
        in_order(f.store),
        f.store.raffle is Some,
        f.store.raffle->0.status is Active,
        f.store.raffle->0.tickets_sold == 0,
        sale_is_over(f.store.raffle->0, f.ledger.timestamp),
        g.store == end_of_sale_outcome(f, true).1.store,
    ensures
        end_of_sale_outcome(f, true).0 is Ok,
        g.store.raffle->0.status is Failed,
        refund_prize_outcome(g).0 is Ok,
        pays_once(
            g,
            refund_prize_outcome(g).1,
            (Payment {
                token: f.store.raffle->0.payment_token,
                from: g.ledger.contract,
                to: f.store.raffle->0.creator,
                amount: f.store.raffle->0.prize_amount,
            }),
        ),
{
    refunds_pay_the_prize_once(g);
}

/// A ticket that is given back alone is paid for exactly once, at its price, to its
/// owner.
pub proof fn refunds_pay_the_ticket_once(f: FrameView, ticket_id: u32)
    requires
        refund_ticket_outcome(f, ticket_id).0 is Ok,
    ensures
        refund_ticket_outcome(f, ticket_id).0 == Ok::<i128, Error>(f.store.raffle->0.ticket_price),
        pays_once(
            f,
            refund_ticket_outcome(f, ticket_id).1,
            (Payment {
                token: f.store.raffle->0.payment_token,
                from: f.ledger.contract,
                to: f.store.tickets[ticket_id].owner,
                amount: f.store.raffle->0.ticket_price,
            }),
        ),
{
    let after = refund_ticket_outcome(f, ticket_id).1.actions;
    let n = f.actions.len() as int;
    lemma_payments_push(f.actions, after[n]);
    lemma_payments_push(f.actions.push(after[n]), after[n + 1]);
    lemma_payments_push(f.actions.push(after[n]).push(after[n + 1]), after[n + 2]);
    assert(after =~= f.actions.push(after[n]).push(after[n + 1]).push(after[n + 2]));
}

/// No ticket that was given back before is among those that a batch pays for.
proof fn lemma_given_back_is_new(done: Set<u32>, ids: Seq<u32>, id: u32)
    requires
        done.contains(id),
    ensures
        !given_back(done, ids).contains(id),
    decreases ids.len(),
{
    if ids.len() > 0 {
        lemma_given_back_is_new(done, ids.drop_last(), id);
        let earlier = given_back(done, ids.drop_last());
        let all = given_back(done, ids);
        if all.contains(id) {
            let k = all.index_of(id);
            if k < earlier.len() {
                assert(earlier[k] == id);
            }
        }
    }
}

/// The owner of a ticket can give it back once the raffle is called off, has failed
/// or is scheduled to be called off, unless it was given back before, alone or with
/// others. A ticket that was given back stays so through every call until the raffle
/// is wiped out: it cannot be given back alone, and no batch pays for it.
pub proof fn tickets_are_refunded_once(
    f: FrameView,
    ticket_id: u32,
    call: Call,
    owner: Address,
    ids: Seq<u32>,
)
    requires
        in_order(f.store),
        f.store.raffle is Some,
        f.store.tickets.contains_key(ticket_id),
        refunds_are_open(f.store),
    ensures
        refund_ticket_outcome(f, ticket_id).0 is Ok <==> !f.store.refunded.contains(ticket_id),
        refund_ticket_outcome(f, ticket_id).1.store.refunded.contains(ticket_id),
        ids.contains(ticket_id) && batch_refund_tickets_outcome(f, owner, ids).0 is Ok
            ==> batch_refund_tickets_outcome(f, owner, ids).1.store.refunded.contains(ticket_id),
        f.store.refunded.contains(ticket_id) ==> !given_back(f.store.refunded, ids).contains(
            ticket_id,
        ),
        f.store.refunded.contains(ticket_id) ==> outcome_of(f, call).1.store.raffle is None
            || outcome_of(f, call).1.store.refunded.contains(ticket_id),
{
    calls_take_allowed_steps(f, call);
    if f.store.refunded.contains(ticket_id) {
        lemma_given_back_is_new(f.store.refunded, ids, ticket_id);
    }
}

/// A batch of which every ticket was given back before pays nothing.
pub proof fn batches_pass_refunded_tickets_over(f: FrameView, owner: Address, ids: Seq<u32>)
    requires
        batch_refund_tickets_outcome(f, owner, ids).0 is Ok,
        forall|i: int| 0 <= i < ids.len() ==> f.store.refunded.contains(#[trigger] ids[i]),
    ensures
        batch_refund_tickets_outcome(f, owner, ids).0 == Ok::<i128, Error>(0),
        payments_in(batch_refund_tickets_outcome(f, owner, ids).1.actions) == payments_in(f.actions),
{
    lemma_nothing_given_back(f.store.refunded, ids);
    let after = batch_refund_tickets_outcome(f, owner, ids).1.actions;
    lemma_payments_push(f.actions, ActionView::RequireAuth(owner));
    assert(0 * f.store.raffle->0.ticket_price == 0) by (nonlinear_arith);
    assert(after =~= f.actions.push(ActionView::RequireAuth(owner)));
}

proof fn lemma_nothing_given_back(done: Set<u32>, ids: Seq<u32>)
    requires
        forall|i: int| 0 <= i < ids.len() ==> done.contains(#[trigger] ids[i]),
    ensures
        given_back(done, ids) == Seq::<u32>::empty(),
    decreases ids.len(),
{
    if ids.len() > 0 {
        assert forall|i: int| 0 <= i < ids.drop_last().len() implies done.contains(
            #[trigger] ids.drop_last()[i],
        ) by {
            assert(ids[i] == ids.drop_last()[i]);
        }
        lemma_nothing_given_back(done, ids.drop_last());
        assert(done.contains(ids[ids.len() - 1]));
    }
}

/// A cancellation by the administrator takes effect only when it is due, after it has
/// been announced for its time: until then the raffle goes on and the cancellation cannot be carried
/// out, and from then on it can, and ends a draw in progress too.
pub proof fn admin_cancellations_wait(f: FrameView, g: FrameView)
    requires
        in_order(f.store),
        cancel_outcome(f, CancelReason::AdminCancelled).0 is Ok,
        g.store == cancel_outcome(f, CancelReason::AdminCancelled).1.store,
    ensures
        g.store.raffle == f.store.raffle,
        g.store.pending_admin_cancel == Some(cancel_due(f.ledger.timestamp)),
        g.ledger.timestamp < cancel_due(f.ledger.timestamp)
            ==> execute_admin_cancel_outcome(g).0 == Err::<(), Error>(Error::CancelTimelockActive),
        g.ledger.timestamp >= cancel_due(f.ledger.timestamp) ==> {
            let (r, after) = execute_admin_cancel_outcome(g);
            &&& r is Ok
            &&& after.store.raffle->0.status is Cancelled
            &&& after.store.pending_admin_cancel is None
            &&& !after.store.drawing_lock
        },
{
}

/// As soon as a cancellation is scheduled, tickets can be given back, whatever the
/// status of the raffle.
pub proof fn scheduled_cancellations_open_refunds(f: FrameView, ticket_id: u32)
    requires
        in_order(f.store),
        f.store.raffle is Some,
        f.store.pending_admin_cancel is Some,
        f.store.tickets.contains_key(ticket_id),
        !f.store.refunded.contains(ticket_id),
    ensures
        refund_ticket_outcome(f, ticket_id).0 == Ok::<i128, Error>(f.store.raffle->0.ticket_price),
{
}

/// Every hash that was committed for a sold ticket goes into the seed whole, whoever
/// owns the ticket at the draw.
pub proof fn every_committed_hash_counts(
    entries: Map<u32, CommitRevealEntry>,
    tickets_sold: u32,
    ticket_id: u32,
)
    requires
        1 <= ticket_id <= tickets_sold,
        entries.contains_key(ticket_id),
    ensures
        exists|at: int|
            0 <= at && at + 32 <= committed_hashes(entries, tickets_sold).len()
                && #[trigger] committed_hashes(entries, tickets_sold).subrange(at, at + 32)
                == entries[ticket_id].hash@,
    decreases tickets_sold,
{
    let all = committed_hashes(entries, tickets_sold);
    let before = committed_hashes(entries, (tickets_sold - 1) as u32);
    let hash = entries[ticket_id].hash@;
    if ticket_id == tickets_sold {
        let at = before.len() as int;
        assert(all.subrange(at, at + 32) =~= hash);
    } else {
        every_committed_hash_counts(entries, (tickets_sold - 1) as u32, ticket_id);
        let at = choose|at: int|
            0 <= at && at + 32 <= before.len() && #[trigger] before.subrange(at, at + 32) == hash;
        assert(all.subrange(at, at + 32) =~= before.subrange(at, at + 32));
    }
}

/// While the prize is held, neither its tokens nor those of the tickets can be taken
/// out as strays.
pub proof fn escrow_cannot_be_rescued(f: FrameView, token: Address, recipient: Address, amount: i128)
    requires
        f.store.raffle is Some,
        f.store.raffle->0.prize_deposited,
        token == f.store.raffle->0.prize_token || token == f.store.raffle->0.payment_token,
    ensures
        rescue_outcome(f, token, recipient, amount, true).0 is Err,
{
}

/// The prize is held in the token of the tickets, so that both ways of rescuing
/// tokens, and both of withdrawing the prize in an emergency, come to the same.
pub proof fn prizes_are_in_the_tickets_token(
    f: FrameView,
    token: Address,
    recipient: Address,
    amount: i128,
    caller: Address,
)
    requires
        in_order(f.store),
    ensures
        rescue_outcome(f, token, recipient, amount, false) == rescue_outcome(
            f,
            token,
            recipient,
            amount,
            true,
        ),
        emergency_outcome(f, caller, false) == emergency_outcome(f, caller, true),
{
}

/// A paused contract neither sells tickets nor takes a prize in, and taking the pause
/// back brings the memory back to what it was.
pub proof fn pauses_stop_the_sale(f: FrameView, g: FrameView, buyer: Address, quantity: u32)
    requires
        pause_outcome(f, true).0 is Ok,
        g.store == pause_outcome(f, true).1.store,
    ensures
        sale_outcome(g, buyer, quantity, true).0 is Err,
        deposit_prize_outcome(g).0 == Err::<(), Error>(Error::ContractPaused),
        pause_outcome(g, false).0 is Ok,
        !f.store.paused ==> pause_outcome(g, false).1.store == f.store,
{
}

/// While the sale is paused no ticket is sold, and resuming it brings the memory back
/// to what it was.
pub proof fn sales_pauses_stop_the_sale(
    f: FrameView,
    g: FrameView,
    caller: Address,
    buyer: Address,
    quantity: u32,
)
    requires
        pause_sales_outcome(f, caller, true).0 is Ok,
        g.store == pause_sales_outcome(f, caller, true).1.store,
    ensures
        sale_outcome(g, buyer, quantity, true).0 is Err,
        pause_sales_outcome(g, caller, false).0 is Ok,
        !f.store.raffle->0.ticket_sales_paused ==> pause_sales_outcome(g, caller, false).1.store
            == f.store,
{
}

/// Wiping a raffle out leaves nothing under any key, and a new raffle can be created.
pub proof fn wiping_leaves_nothing(f: FrameView, key: DataKey)
    requires
        in_order(f.store),
        wipe_outcome(f, true).0 is Ok,
    ensures
        !wipe_outcome(f, true).1.store.holds(key),
        in_order(wipe_outcome(f, true).1.store),
        wipe_outcome(f, true).1.store.raffle is None,
{
    lemma_wiped(f.store);
}

/// Calling a raffle off at once during its draw ends the draw: the lock is free and no
/// request is open.
pub proof fn cancelling_releases_the_draw(f: FrameView, reason: CancelReason)
    requires
        f.store.raffle is Some,
        f.store.raffle->0.status is Drawing,
        reason !is AdminCancelled,
        cancel_outcome(f, reason).0 is Ok,
    ensures
        ({
            let after = cancel_outcome(f, reason).1.store;
            &&& !after.drawing_lock
            &&& !after.randomness_requested
            &&& after.randomness_request_id is None
            &&& after.randomness_request_ledger is None
            &&& after.raffle->0.status is Cancelled
        }),
{
}

/// A raffle never stays in a draw for want of an oracle: its creator can always call
/// it off, and once the oracle's time has run out an open request can be given up.
pub proof fn draws_can_be_called_off(f: FrameView)
    requires
        in_order(f.store),
        f.store.raffle is Some,
        f.store.raffle->0.status is Drawing,
    ensures
        cancel_outcome(f, CancelReason::CreatorCancelled).0 is Ok,
        !cancel_outcome(f, CancelReason::CreatorCancelled).1.store.drawing_lock,
        f.store.randomness_requested && f.ledger.sequence >= request_ledger_of(f.store)
            + ORACLE_TIMEOUT_LEDGERS ==> {
            let (r, after) = trigger_fallback_outcome(f, f.store.raffle->0.creator, true);
            &&& r is Ok
            &&& !after.store.drawing_lock
            &&& after.store.raffle->0.status is Cancelled
        },
{
}

/// The prize goes back at most once: after a refund or an emergency withdrawal there
/// is neither another one nor a claim, until a prize is paid in again.
pub proof fn prizes_go_back_once(f: FrameView, g: FrameView, caller: Address, winner: Address, tier_index: u32)
    requires
        (refund_prize_outcome(f).0 is Ok && g.store == refund_prize_outcome(f).1.store) || (
        emergency_outcome(f, caller, true).0 is Ok && g.store == emergency_outcome(
            f,
            caller,
            true,
        ).1.store),
    ensures
        refund_prize_outcome(g).0 == Err::<(), Error>(Error::PrizeNotDeposited),
        emergency_outcome(g, caller, true).0 == Err::<(), Error>(Error::PrizeNotDeposited),
        claim_prize_outcome(g, winner, tier_index).0 is Err,
{
}

/// A draw keeps every other draw and every sale out from its beginning to its end.
pub proof fn draws_exclude_each_other(f: FrameView, g: FrameView, timestamp: u64, buyer: Address, quantity: u32)
    requires
        f.store.raffle is Some,
        transition_to_drawing_outcome(f, timestamp).0 is Ok,
        g.store == transition_to_drawing_outcome(f, timestamp).1.store,
    ensures
        transition_to_drawing_outcome(g, timestamp).0 == Err::<(), Error>(
            Error::DrawingAlreadyInProgress,
        ),
        sale_outcome(g, buyer, quantity, true).0 == Err::<u32, Error>(
            Error::DrawingAlreadyInProgress,
        ),
{
}

/// An oracle's seed is taken only for the request that is open, and only once.
pub proof fn seeds_are_taken_once(
    f: FrameView,
    g: FrameView,
    random_seed: u64,
    public_key: Seq<u8>,
    signature: Seq<u8>,
    request_id: u64,
    later_seed: u64,
    later_id: u64,
)
    requires
        provide_randomness_outcome(f, random_seed, public_key, signature, request_id).0 is Ok,
        g.store == provide_randomness_outcome(
            f,
            random_seed,
            public_key,
            signature,
            request_id,
        ).1.store,
    ensures
        f.store.randomness_requested && f.store.randomness_request_id == Some(request_id),
        provide_randomness_outcome(g, later_seed, public_key, signature, later_id).0 == Err::<
            Address,
            Error,
        >(Error::DrawingAlreadyComplete),
{
}

/// The oracle's absence is made up for only after the time that the oracle has.
pub proof fn fallbacks_wait_for_the_oracle(f: FrameView, caller: Address, do_refund: bool)
    requires
        trigger_fallback_outcome(f, caller, do_refund).0 is Ok,
    ensures
        f.store.raffle is Some && f.store.raffle->0.status is Drawing,
        f.ledger.sequence >= request_ledger_of(f.store) + ORACLE_TIMEOUT_LEDGERS,
{
}

/// The prize leaves in an emergency only long after the end of the sale, the draw or
/// the oracle's request, and goes to the creator.
pub proof fn emergencies_come_late(f: FrameView, caller: Address)
    requires
        emergency_outcome(f, caller, true).0 is Ok,
    ensures
        ({
            let raffle = f.store.raffle->0;
            let now = f.ledger.timestamp;
            ||| raffle.status is Finalized && now >= raffle.finalized_at->0
                + EMERGENCY_WITHDRAW_DELAY_SECONDS
            ||| raffle.status is Drawing && !raffle.no_deadline && now >= raffle.end_time
                + EMERGENCY_WITHDRAW_DELAY_SECONDS
            ||| raffle.status is Drawing && raffle.no_deadline && (f.ledger.sequence
                - request_ledger_of(f.store)) * 5 >= EMERGENCY_WITHDRAW_DELAY_SECONDS
        }),
        emergency_outcome(f, caller, true).1.actions.contains(
            ActionView::Transfer(
                Payment {
                    token: f.store.raffle->0.prize_token,
                    from: f.ledger.contract,
                    to: f.store.raffle->0.creator,
                    amount: f.store.raffle->0.prize_amount,
                },
            ),
        ),
{
    let after = emergency_outcome(f, caller, true).1;
    let k = after.actions.len() - 2;
    assert(after.actions[k] is Transfer);
}

/// With enough tickets sold a draw names a winner for every tier: the owners of
/// distinct tickets.
pub proof fn draws_name_winners(store: StoreView, seed: u64)
    requires
        in_order(store),
        store.raffle is Some,
        store.raffle->0.prizes.len() <= store.raffle->0.tickets_sold,
    ensures
        winners_refusal(store, seed) is None,
        winners_of(store, seed).len() == store.raffle->0.prizes.len(),
        winning_tickets(store, seed).no_duplicates(),
        forall|i: int|
            0 <= i < winners_of(store, seed).len() ==> {
                let id = (winning_tickets(store, seed)[i] + 1) as u32;
                store.tickets.contains_key(id) && #[trigger] winners_of(store, seed)[i]
                    == store.tickets[id].owner
            },
{
    let raffle = store.raffle->0;
    winners_are_distinct_tickets(seed, raffle.tickets_sold, raffle.prizes.len() as u32);
}

/// Whether the published record of a draw can be checked: the seed gives the winning
/// tickets, and the winners are who bought these.
pub open spec fn draw_checks_out(store: StoreView) -> bool {
    let raffle = store.raffle->0;
    let data = fairness_data_of(store)->Ok_0;
    let tickets = data.winning_ticket_indices;
    &&& fairness_data_of(store) is Ok
    &&& data.ticket_ids == Seq::new(raffle.tickets_sold as nat, |i: int| (i + 1) as u32)
    &&& tickets == winning_indices(data.seed, raffle.tickets_sold, raffle.prizes.len() as u32)
    &&& tickets.len() == raffle.winners.len()
    &&& forall|i: int|
        0 <= i < tickets.len() ==> tickets[i] < raffle.tickets_sold && #[trigger] raffle.winners[i]
            == store.tickets[(tickets[i] + 1) as u32].owner
}

proof fn lemma_draw_checks_out(store: StoreView)
    requires
        store.raffle is Some,
        record_is_right(store),
    ensures
        draw_checks_out(store),
{
    let raffle = store.raffle->0;
    let seed = store.randomness_seed->0.seed;
    winners_are_distinct_tickets(seed, raffle.tickets_sold, raffle.prizes.len() as u32);
}

/// A draw that comes to its end publishes its seed and a record that checks out.
pub proof fn draws_publish_their_seed(f: FrameView, seed: u64, randomness_type: RandomnessType)
    requires
        in_order(f.store),
        f.store.raffle is Some,
        f.store.raffle->0.status is Active || f.store.raffle->0.status is Drawing,
        finalize_with_seed_outcome(f, seed, randomness_type).0 is Ok,
    ensures
        ({
            let after = finalize_with_seed_outcome(f, seed, randomness_type).1.store;
            &&& after.raffle->0.status is Finalized
            &&& draw_checks_out(after)
            &&& fairness_data_of(after)->Ok_0.seed == seed
        }),
{
    lemma_finalized(f, seed, randomness_type);
    lemma_draw_checks_out(finalize_with_seed_outcome(f, seed, randomness_type).1.store);
}

/// What is published of a draw stays: after whatever calls the seed, the tickets that
/// won and the winners are the same, also when the raffle was called off and further
/// tickets were sold, until it is wiped out or drawn anew.
pub proof fn published_draws_stay(store: StoreView, steps: Seq<Step>)
    requires
        in_order(store),
        store.raffle is Some,
        store.raffle->0.status is Finalized || store.raffle->0.status is Claimed,
        forall|k: int|
            0 <= k <= steps.len() ==> (#[trigger] after_steps(store, steps.take(k))).raffle is Some,
        not_drawn_anew(store, steps),
    ensures
        ({
            let after = after_steps(store, steps);
            let first = fairness_data_of(store)->Ok_0;
            let last = fairness_data_of(after)->Ok_0;
            &&& fairness_data_of(store) is Ok
            &&& fairness_data_of(after) is Ok
            &&& last == (FairnessDataView { ticket_ids: last.ticket_ids, ..first })
            &&& after.raffle->0.winners == store.raffle->0.winners
        }),
{
    assert(steps.take(steps.len() as int) =~= steps);
    assert(after_steps(store, steps.take(steps.len() as int)).raffle is Some);
    records_stay(store, steps);
}

/// Anybody can check the draw of a raffle after whatever calls, also when the raffle
/// was called off after its draw, until it is wiped out or a further ticket is sold
/// after its prize was paid in again. Until it is drawn anew, what is published is the
/// same, the seed included.
pub proof fn draws_can_be_checked(store: StoreView, steps: Seq<Step>)
    requires
        in_order(store),
        store.raffle is Some,
        store.raffle->0.status is Finalized || store.raffle->0.status is Claimed,
        forall|k: int|
            0 <= k <= steps.len() ==> (#[trigger] after_steps(store, steps.take(k))).raffle is Some,
        after_steps(store, steps).raffle->0.tickets_sold == store.raffle->0.tickets_sold,
    ensures
        draw_checks_out(after_steps(store, steps)),
        not_drawn_anew(store, steps) ==> fairness_data_of(after_steps(store, steps))
            == fairness_data_of(store),
{
    records_stay_right(store, steps);
    lemma_draw_checks_out(after_steps(store, steps));
    if not_drawn_anew(store, steps) {
        published_draws_stay(store, steps);
    }
}

/// The price of a ticket by its number: the early bird price up to the cap, and the
/// full price from there on. It depends on the terms of the raffle alone.
pub open spec fn price_of_ticket(raffle: RaffleView, id: int) -> int {
    if id <= early_bird_cap(raffle) {
        early_bird_price(raffle)
    } else {
        raffle.ticket_price as int
    }
}

/// What a ticket costs is settled at the creation of the raffle: no call changes it.
pub proof fn prices_of_tickets_stay(f: FrameView, call: Call, id: int)
    requires
        in_order(f.store),
        f.store.raffle is Some,
        outcome_of(f, call).1.store.raffle is Some,
    ensures
        price_of_ticket(outcome_of(f, call).1.store.raffle->0, id) == price_of_ticket(
            f.store.raffle->0,
            id,
        ),
{
    calls_take_allowed_steps(f, call);
}

/// What the tickets from one number to another cost.
pub open spec fn price_of_tickets(raffle: RaffleView, first: int, last: int) -> int
    decreases last - first + 1,
{
    if last < first {
        0
    } else {
        price_of_tickets(raffle, first, last - 1) + price_of_ticket(raffle, last)
    }
}

/// A purchase costs what its tickets cost by their numbers. So over all purchases the
/// discount goes to no more tickets than the early bird percentage of all.
pub proof fn discounts_go_to_the_first_tickets(raffle: RaffleView, quantity: u32)
    ensures
        cost_of(raffle, quantity, true) == price_of_tickets(
            raffle,
            raffle.tickets_sold + 1,
            raffle.tickets_sold + quantity,
        ),
        forall|id: int| #[trigger]
            price_of_ticket(raffle, id) != raffle.ticket_price ==> id <= raffle.max_tickets
                * raffle.early_bird_ticket_percentage / 100,
    decreases quantity,
{
    let early = early_bird_price(raffle);
    let full = raffle.ticket_price as int;
    let d = discounted_in(raffle, quantity, true);
    if quantity == 0 {
        assert(early * 0 == 0 && full * 0 == 0);
    } else {
        let fewer = (quantity - 1) as u32;
        discounts_go_to_the_first_tickets(raffle, fewer);
        let e = discounted_in(raffle, fewer, true);
        assert(early * (e + 1) == early * e + early) by (nonlinear_arith);
        assert(full * (quantity - d) == full * (fewer - d) + full) by (nonlinear_arith)
            requires
                fewer == quantity - 1,
        ;
    }
}

/// A purchase that succeeds gives the buyer the next tickets, which the index then
/// lists behind the buyer's earlier ones; it is paid in full, and the sale never goes
/// beyond the number of tickets.
pub proof fn purchases_give_the_next_tickets(f: FrameView, buyer: Address, quantity: u32)
    requires
        in_order(f.store),
        sale_outcome(f, buyer, quantity, true).0 is Ok,
    ensures
        ({
            let raffle = f.store.raffle->0;
            let (r, after) = sale_outcome(f, buyer, quantity, true);
            &&& r->Ok_0 == raffle.tickets_sold + quantity <= raffle.max_tickets
            &&& after.store.raffle->0.tickets_sold == r->Ok_0
            &&& after.store.tickets_of(buyer) == f.store.tickets_of(buyer) + new_ticket_ids(
                raffle.tickets_sold,
                quantity,
            )
            &&& forall|id: u32|
                raffle.tickets_sold < id <= r->Ok_0 ==> (#[trigger] after.store.tickets[id]).owner
                    == buyer
            &&& after.actions.contains(
                ActionView::TryTransfer(
                    Payment {
                        token: raffle.payment_token,
                        from: buyer,
                        to: f.ledger.contract,
                        amount: cost_of(raffle, quantity, true) as i128,
                    },
                ),
            )
            &&& 0 <= cost_of(raffle, quantity, true) <= raffle.ticket_price * quantity
        }),
{
    let raffle = f.store.raffle->0;
    let after = sale_outcome(f, buyer, quantity, true).1;
    lemma_costs(raffle, quantity, true);
    let n = after.actions.len() as int;
    let payment = ActionView::TryTransfer(
        Payment {
            token: raffle.payment_token,
            from: buyer,
            to: f.ledger.contract,
            amount: cost_of(raffle, quantity, true) as i128,
        },
    );
    assert(after.actions[n - 2] == payment || after.actions[n - 3] == payment);
}

/// Everybody's list of tickets is complete and right.
pub proof fn owners_see_their_tickets(store: StoreView, owner: Address)
    requires
        in_order(store),
    ensures
        lists_tickets_of(store.tickets, owner, store.tickets_of(owner)),
        store.tickets_of(owner).len() == store.count_of(owner),
{
    if store.raffle is None {
        assert(store.tickets_of(owner) =~= Seq::empty());
    }
}

/// Fees can be paid out only as far as they have come in.
pub proof fn fees_are_paid_once(f: FrameView, recipient: Address, amount: i128)
    requires
        in_order(f.store),
        withdraw_fees_outcome(f, recipient, amount).0 is Ok,
    ensures
        0 < amount <= f.store.accumulated_fees,
        withdraw_fees_outcome(f, recipient, amount).1.store.accumulated_fees
            == f.store.accumulated_fees - amount,
{
}

/// A contract creates one raffle at a time.
pub proof fn raffles_are_created_once(
    f: FrameView,
    factory: Address,
    admin: Address,
    creator: Address,
    config: RaffleConfigView,
)
    requires
        f.store.raffle is Some,
    ensures
        init_outcome(f, factory, admin, creator, config) == (
            Err::<(), Error>(Error::AlreadyInitialized),
            f,
        ),
{
}

/// Every reason for a refusal has a number of its own.
pub proof fn codes_tell_errors_apart(a: Error, b: Error)
    requires
        a.code_of() == b.code_of(),
    ensures
        a == b,
{
}

} // verus!
