//! What each call owes to those who rely on it: when it has to succeed, and what it
//! then does, told by the memory before it and the memory after it.

use crate::action::{ActionView, Event, Payment};
use crate::address::Address;
use crate::admin::cancel_outcome;
use crate::bytes::big_endian;
use crate::contract::fairness_data_of;
use crate::draw::{
    committed_hashes, end_of_sale_outcome, finalize_raffle_outcome, provide_randomness_outcome,
    trigger_fallback_outcome,
};
use crate::error::Error;
use crate::helpers::tier_prize;
use crate::host::{
    sha256_of, xdr_of_address, xdr_of_ledger, xdr_of_proof_message, xdr_of_request,
    xdr_of_seed_and_tickets, xdr_of_seed_inputs,
};
use crate::laws::{in_order, lists_tickets_of};
use crate::payout::{
    batch_refund_tickets_outcome, batch_refusal, claim_prize_outcome, execute_admin_cancel_outcome,
    given_back, refund_prize_outcome, refund_ticket_outcome, MAX_BATCH_REFUND,
};
use crate::promises::{
    claims_pay_winners_their_tier, discounts_go_to_the_first_tickets, lemma_payments_at,
    payments_in, pays_once, price_of_tickets, prizes_before, refunds_pay_the_prize_once,
    tiers_share_the_whole_prize,
};
use crate::randomness::{fingerprint_of, internal_seed_of, mixed_seed_of};
use crate::sampling::{winners_are_distinct_tickets, winning_indices};
use crate::store::{FrameView, Ledger, StoreView};
use crate::tickets::{
    cost_of, early_bird_price, fee_of, lemma_costs, sale_outcome, submit_commit_outcome,
};
use crate::types::{
    CancelReason, CommitRevealEntry, FailureReason, FairnessDataView, RaffleStatus, RaffleView,
    RandomnessType, Ticket,
};
use crate::{ADMIN_CANCEL_DELAY_SECONDS, ORACLE_TIMEOUT_LEDGERS};
use vstd::prelude::*;

verus! {

/// Whether the first action that a call asks for is that somebody confirms it.
pub open spec fn is_confirmed_by(before: FrameView, after: FrameView, who: Address) -> bool {
    let n = before.actions.len() as int;
    n < after.actions.len() && after.actions[n] == ActionView::RequireAuth(who)
}

/// Whether a raffle has been drawn from a seed: the record holds the seed and the
/// tickets that the seed leads to, a different one for each tier, the winners are who
/// owns these, nothing has been claimed, and the draw is over.
pub open spec fn is_drawn_from(before: StoreView, after: StoreView, seed: u64, ledger: Ledger) -> bool {
    let raffle = before.raffle->0;
    let drawn = after.raffle->0;
    let record = after.randomness_seed->0;
    let tickets = record.winning_ticket_indices;
    &&& after.raffle is Some && drawn.status is Finalized
    &&& after.randomness_seed is Some && record.seed == seed
    &&& record.randomness_source == raffle.randomness_source
    &&& record.draw_timestamp == ledger.timestamp && record.draw_sequence == ledger.sequence
    &&& fairness_data_of(after) is Ok && fairness_data_of(after)->Ok_0.seed == seed
    &&& fairness_data_of(after)->Ok_0.winning_ticket_indices == tickets
    &&& tickets == winning_indices(seed, raffle.tickets_sold, raffle.prizes.len() as u32)
    &&& tickets.no_duplicates()
    &&& tickets.len() == raffle.prizes.len()
    &&& drawn.winners.len() == raffle.prizes.len()
    &&& forall|i: int|
        0 <= i < raffle.prizes.len() ==> {
            &&& tickets[i] < raffle.tickets_sold
            &&& #[trigger] drawn.winners[i] == before.tickets[(tickets[i] + 1) as u32].owner
        }
    &&& drawn.claimed_winners.len() == raffle.prizes.len()
    &&& forall|i: int| 0 <= i < raffle.prizes.len() ==> !#[trigger] drawn.claimed_winners[i]
    &&& drawn.finalized_at == Some(ledger.timestamp)
    &&& drawn.tickets_sold == raffle.tickets_sold && drawn.prizes == raffle.prizes
    &&& drawn.prize_deposited == raffle.prize_deposited
    &&& after.tickets == before.tickets && after.refunded == before.refunded
    &&& after.accumulated_fees == before.accumulated_fees
    &&& !after.drawing_lock && !after.randomness_requested
    &&& after.randomness_request_id is None && after.randomness_request_ledger is None
}

/// Whether the oracle of a raffle is being waited for.
pub open spec fn awaits_oracle(store: StoreView) -> bool {
    &&& store.raffle is Some
    &&& store.raffle->0.status is Drawing
    &&& store.randomness_requested
}

/// The oracle's seed, and no other, decides: where the oracle delivers a seed for the
/// request that is open, the call succeeds if there is a ticket for every prize, and the
/// raffle is drawn from the seed as it was delivered, all 64 bits of it. The oracle has
/// confirmed the call, the host is asked to check its signature over this raffle, this
/// request and this seed, and the seed is made known.
pub proof fn oracles_seeds_decide(
    f: FrameView,
    random_seed: u64,
    public_key: Seq<u8>,
    signature: Seq<u8>,
    request_id: u64,
)
    requires
        in_order(f.store),
    ensures
        ({
            let raffle = f.store.raffle->0;
            let (r, after) = provide_randomness_outcome(
                f,
                random_seed,
                public_key,
                signature,
                request_id,
            );
            let n = f.actions.len() as int;
            &&& r is Ok <==> {
                &&& awaits_oracle(f.store)
                &&& raffle.oracle_address is Some
                &&& f.store.randomness_request_id == Some(request_id)
                &&& raffle.prizes.len() <= raffle.tickets_sold
            }
            &&& r is Ok ==> {
                &&& r->Ok_0 == f.ledger.contract
                &&& is_drawn_from(f.store, after.store, random_seed, f.ledger)
                &&& is_confirmed_by(f, after, raffle.oracle_address->0)
                &&& after.actions[n + 1] == (ActionView::CheckProof {
                    public_key,
                    message: xdr_of_proof_message(f.ledger.contract, request_id, random_seed),
                    proof: signature,
                })
                &&& after.actions[n + 2] == ActionView::Publish(
                    Event::RandomnessReceived {
                        oracle: raffle.oracle_address->0,
                        seed: random_seed,
                        request_id,
                        timestamp: f.ledger.timestamp,
                    },
                )
            }
        }),
{
    if f.store.raffle is Some {
        let raffle = f.store.raffle->0;
        winners_are_distinct_tickets(random_seed, raffle.tickets_sold, raffle.prizes.len() as u32);
    }
}

/// The number that some bytes give as a seed: the leading eight bytes of their digest.
pub open spec fn digest_seed(bytes: Seq<u8>) -> u64 {
    big_endian(sha256_of(bytes).take(8)) as u64
}

/// The draw of a raffle without an oracle comes to its end: once its last ticket is sold
/// and its draw has begun, or once its sale is over with enough tickets sold, ending the
/// sale succeeds if there is a ticket for every prize, and the raffle is drawn, from the
/// hashes that were committed if it asked for hashes and got any, and else from the ledger.
pub proof fn draws_without_an_oracle_are_finished(f: FrameView)
    requires
        in_order(f.store),
        f.store.raffle is Some,
        f.store.raffle->0.randomness_source !is External,
        f.store.raffle->0.prizes.len() <= f.store.raffle->0.tickets_sold,
        f.store.raffle->0.status is Drawing || (f.store.raffle->0.status is Active
            && f.store.raffle->0.tickets_sold >= f.store.raffle->0.min_tickets && (
        f.store.raffle->0.tickets_sold == f.store.raffle->0.max_tickets || (
        !f.store.raffle->0.no_deadline && f.ledger.timestamp >= f.store.raffle->0.end_time))),
    ensures
        ({
            let raffle = f.store.raffle->0;
            let (r, after) = end_of_sale_outcome(f, true);
            let hashes = committed_hashes(f.store.commit_entries, raffle.tickets_sold);
            let seed = if raffle.randomness_source is CommitReveal && hashes.len() > 0 {
                digest_seed(hashes)
            } else {
                digest_seed(
                    xdr_of_ledger(f.ledger.timestamp, f.ledger.sequence, f.ledger.contract),
                )
            };
            &&& r is Ok
            &&& after.store.raffle->0.status is Finalized
            &&& is_drawn_from(f.store, after.store, seed, f.ledger)
            &&& is_confirmed_by(f, after, raffle.creator)
        }),
{
    let raffle = f.store.raffle->0;
    let (r, after) = end_of_sale_outcome(f, true);
    let seed = after.store.randomness_seed->0.seed;
    let expected = crate::draw::draw_seed(f.store, f.ledger);
    winners_are_distinct_tickets(expected, raffle.tickets_sold, raffle.prizes.len() as u32);
    assert(r is Ok);
    assert(seed == expected);
}

/// Whether a draw has been announced: each tier's winner with the ticket that won, in
/// order, and last of all the draw as a whole.
pub open spec fn is_announced(f: FrameView, after: FrameView, randomness_type: RandomnessType) -> bool {
    let raffle = after.store.raffle->0;
    let tickets = after.store.randomness_seed->0.winning_ticket_indices;
    let tiers = raffle.prizes.len() as int;
    let n = after.actions.len() as int;
    &&& f.actions.len() + 1 + tiers < n
    &&& forall|i: int|
        0 <= i < tiers ==> #[trigger] after.actions[n - 1 - tiers + i] == ActionView::Publish(
            Event::WinnerDrawn {
                winner: raffle.winners[i],
                ticket_id: tickets[i],
                tier_index: i as u32,
                timestamp: f.ledger.timestamp,
            },
        )
    &&& after.actions.last() == (ActionView::PublishFinalized {
        raffle_id: f.ledger.contract,
        winners: raffle.winners,
        winning_ticket_ids: tickets,
        total_tickets_sold: raffle.tickets_sold,
        randomness_source: raffle.randomness_source,
        randomness_type,
        finalized_at: f.ledger.timestamp,
    })
}

/// Every draw is announced, with where its seed came from, and makes no payment.
pub proof fn draws_are_announced(
    f: FrameView,
    random_seed: u64,
    public_key: Seq<u8>,
    signature: Seq<u8>,
    request_id: u64,
    caller: Address,
)
    requires
        in_order(f.store),
        f.store.raffle is Some,
    ensures
        ({
            let o = provide_randomness_outcome(
                f,
                random_seed,
                public_key,
                signature,
                request_id,
            );
            o.0 is Ok ==> is_announced(f, o.1, RandomnessType::Vrf) && payments_in(o.1.actions)
                == payments_in(f.actions)
        }),
        ({
            let o = trigger_fallback_outcome(f, caller, false);
            o.0 is Ok ==> is_announced(f, o.1, RandomnessType::Fallback) && payments_in(
                o.1.actions,
            ) == payments_in(f.actions)
        }),
        ({
            let o = end_of_sale_outcome(f, true);
            o.0 is Ok && o.1.store.raffle->0.status is Finalized ==> is_announced(
                f,
                o.1,
                RandomnessType::Prng,
            ) && payments_in(o.1.actions) == payments_in(f.actions)
        }),
{
    let raffle = f.store.raffle->0;
    let tiers = raffle.prizes.len() as u32;
    let n = f.actions.len() as int;
    let p = provide_randomness_outcome(f, random_seed, public_key, signature, request_id);
    let t = trigger_fallback_outcome(f, caller, false);
    let e = end_of_sale_outcome(f, true);
    if p.0 is Ok {
        winners_are_distinct_tickets(random_seed, raffle.tickets_sold, tiers);
        lemma_no_payments(p.1.actions, n, p.1.actions.len() as int);
        assert(p.1.actions.take(n) =~= f.actions);
        assert(p.1.actions.take(p.1.actions.len() as int) =~= p.1.actions);
    }
    if t.0 is Ok {
        winners_are_distinct_tickets(
            crate::helpers::ledger_seed(f.ledger),
            raffle.tickets_sold,
            tiers,
        );
        lemma_no_payments(t.1.actions, n, t.1.actions.len() as int);
        assert(t.1.actions.take(n) =~= f.actions);
        assert(t.1.actions.take(t.1.actions.len() as int) =~= t.1.actions);
    }
    if e.0 is Ok && e.1.store.raffle->0.status is Finalized {
        winners_are_distinct_tickets(
            crate::draw::draw_seed(f.store, f.ledger),
            raffle.tickets_sold,
            tiers,
        );
        lemma_no_payments(e.1.actions, n, e.1.actions.len() as int);
        assert(e.1.actions.take(n) =~= f.actions);
        assert(e.1.actions.take(e.1.actions.len() as int) =~= e.1.actions);
    }
}

/// The way of ending the sale that takes up no draw that was begun is refused during a
/// draw, and comes to the same as the other in any other case.
pub proof fn begun_draws_are_taken_up_or_refused(f: FrameView)
    requires
        in_order(f.store),
    ensures
        f.store.raffle is Some && f.store.raffle->0.status is Drawing ==> finalize_raffle_outcome(f)
            == (Err::<(), Error>(Error::DrawingAlreadyInProgress), f),
        !(f.store.raffle is Some && f.store.raffle->0.status is Drawing) ==> finalize_raffle_outcome(
            f,
        ) == end_of_sale_outcome(f, true),
{
}

/// What ending the sale comes to otherwise. It is refused while the sale goes on and
/// after a draw. With too few tickets sold, or none, the raffle fails. With an oracle a
/// request is opened, once, and the draw waits for it. Without an oracle there has to be
/// a ticket for every prize.
pub proof fn sales_end_when_they_are_over(f: FrameView)
    requires
        in_order(f.store),
        f.store.raffle is Some,
    ensures
        ({
            let raffle = f.store.raffle->0;
            let (r, after) = end_of_sale_outcome(f, true);
            let over = raffle.tickets_sold == raffle.max_tickets || (!raffle.no_deadline
                && f.ledger.timestamp >= raffle.end_time);
            let few = raffle.tickets_sold == 0 || raffle.tickets_sold < raffle.min_tickets;
            let can_end = raffle.status is Drawing || (raffle.status is Active && over);
            let id = digest_seed(
                xdr_of_request(
                    f.ledger.timestamp,
                    f.ledger.sequence,
                    xdr_of_address(f.ledger.contract),
                ),
            );
            &&& is_confirmed_by(f, after, raffle.creator)
            &&& !can_end ==> r is Err
            &&& can_end && few ==> {
                &&& r is Ok
                &&& after.store == f.store.with_raffle(
                    RaffleView { status: RaffleStatus::Failed, ..raffle },
                )
                &&& payments_in(after.actions) == payments_in(f.actions)
                &&& after.actions.last() == ActionView::Publish(
                    Event::RaffleFailed {
                        creator: raffle.creator,
                        reason: if raffle.tickets_sold == 0 {
                            FailureReason::ZeroTicketsSold
                        } else {
                            FailureReason::MinTicketsNotMet
                        },
                        tickets_sold: raffle.tickets_sold,
                        timestamp: f.ledger.timestamp,
                    },
                )
            }
            &&& can_end && !few && raffle.randomness_source is External ==> {
                &&& r is Ok <==> !f.store.randomness_requested
                &&& r is Ok ==> {
                    &&& after.store.raffle == Some(
                        RaffleView { status: RaffleStatus::Drawing, ..raffle },
                    )
                    &&& after.store.drawing_lock && after.store.randomness_requested
                    &&& after.store.randomness_request_id == Some(id)
                    &&& after.store.randomness_request_ledger == Some(f.ledger.sequence)
                    &&& after.actions.last() == ActionView::Publish(
                        Event::RandomnessRequested {
                            oracle: match raffle.oracle_address {
                                Some(oracle) => oracle,
                                None => f.ledger.contract,
                            },
                            request_id: id,
                            timestamp: f.ledger.timestamp,
                        },
                    )
                }
            }
            &&& can_end && !few && raffle.randomness_source !is External && raffle.prizes.len()
                > raffle.tickets_sold ==> r == Err::<(), Error>(Error::MorePrizesThanTickets)
        }),
{
    let raffle = f.store.raffle->0;
    let after = end_of_sale_outcome(f, true).1;
    let n = f.actions.len() as int;
    if end_of_sale_outcome(f, true).0 is Ok && after.store.raffle->0.status is Failed {
        lemma_payments_at(after.actions, n);
        lemma_payments_at(after.actions, n + 1);
        assert(after.actions.take(n) =~= f.actions);
        assert(after.actions.take(n + 2) =~= after.actions);
    }
}

/// The oracle's absence can be made up for exactly when its time has run out on an open
/// request, by the creator or the administrator: the raffle is called off and the draw
/// with it, or it is drawn from the ledger if there is a ticket for every prize.
pub proof fn fallbacks_make_up_for_the_oracle(f: FrameView, caller: Address, do_refund: bool)
    requires
        in_order(f.store),
    ensures
        ({
            let raffle = f.store.raffle->0;
            let (r, after) = trigger_fallback_outcome(f, caller, do_refund);
            let asked_at = match f.store.randomness_request_ledger {
                Some(sequence) => sequence,
                None => 0,
            };
            &&& r is Ok <==> {
                &&& awaits_oracle(f.store)
                &&& caller == raffle.creator || f.store.admin == Some(caller)
                &&& f.ledger.sequence >= asked_at + ORACLE_TIMEOUT_LEDGERS
                &&& do_refund || raffle.prizes.len() <= raffle.tickets_sold
            }
            &&& r is Ok ==> is_confirmed_by(f, after, caller)
            &&& r is Ok && do_refund ==> {
                &&& is_called_off(f.store, after.store)
                &&& after.actions == f.actions.push(ActionView::RequireAuth(caller)).push(
                    told_of_end(f, CancelReason::OracleTimeout),
                )
            }
            &&& r is Ok && !do_refund ==> after.actions[f.actions.len() as int + 1] == ActionView::Publish(
                Event::RandomnessFallbackTriggered {
                    triggered_by: caller,
                    seed_used: digest_seed(
                        xdr_of_ledger(f.ledger.timestamp, f.ledger.sequence, f.ledger.contract),
                    ),
                    request_ledger: asked_at,
                    fallback_ledger: f.ledger.sequence,
                    timestamp: f.ledger.timestamp,
                },
            )
            &&& r is Ok && !do_refund ==> is_drawn_from(
                f.store,
                after.store,
                digest_seed(
                    xdr_of_ledger(f.ledger.timestamp, f.ledger.sequence, f.ledger.contract),
                ),
                f.ledger,
            )
        }),
{
    if f.store.raffle is Some {
        let raffle = f.store.raffle->0;
        winners_are_distinct_tickets(
            crate::helpers::ledger_seed(f.ledger),
            raffle.tickets_sold,
            raffle.prizes.len() as u32,
        );
    }
}

/// The news that a raffle was called off for a reason.
pub open spec fn told_of_end(f: FrameView, reason: CancelReason) -> ActionView {
    ActionView::Publish(
        Event::RaffleCancelled {
            creator: f.store.raffle->0.creator,
            reason,
            tickets_sold: f.store.raffle->0.tickets_sold,
            prize_refunded: f.store.raffle->0.prize_deposited,
            timestamp: f.ledger.timestamp,
        },
    )
}

/// Whether a raffle has been called off: a draw in progress is over, an open request is
/// given up, and nothing else is changed, so that the prize is still held if it was.
pub open spec fn is_called_off(before: StoreView, after: StoreView) -> bool {
    &&& after.raffle == Some(RaffleView { status: RaffleStatus::Cancelled, ..before.raffle->0 })
    &&& !after.drawing_lock && !after.randomness_requested
    &&& before.raffle->0.status is Drawing ==> after.randomness_request_id is None
        && after.randomness_request_ledger is None
    &&& after == (StoreView {
        raffle: after.raffle,
        drawing_lock: after.drawing_lock,
        randomness_requested: after.randomness_requested,
        randomness_request_id: after.randomness_request_id,
        randomness_request_ledger: after.randomness_request_ledger,
        ..before
    })
}

/// The creator can call a raffle off until it has been drawn, claimed or called off.
pub proof fn creators_can_call_a_raffle_off(f: FrameView, reason: CancelReason)
    requires
        in_order(f.store),
        f.store.raffle is Some,
        reason !is AdminCancelled,
    ensures
        ({
            let raffle = f.store.raffle->0;
            let (r, after) = cancel_outcome(f, reason);
            &&& r is Ok <==> (raffle.status is PendingPrize || raffle.status is Active
                || raffle.status is Drawing || raffle.status is Failed)
            &&& is_confirmed_by(f, after, raffle.creator)
            &&& r is Ok ==> is_called_off(f.store, after.store)
            &&& r is Ok ==> after.actions == f.actions.push(
                ActionView::RequireAuth(raffle.creator),
            ).push(told_of_end(f, reason))
        }),
{
}

/// The administrator that was named at the creation can schedule the end of a raffle
/// until it has been drawn, claimed or called off, one day ahead; on the day, and not
/// before, the end can be carried out.
pub proof fn administrators_can_call_a_raffle_off(f: FrameView, g: FrameView)
    requires
        in_order(f.store),
        f.store.raffle is Some,
        in_order(g.store),
        g.store.raffle is Some,
    ensures
        ({
            let raffle = f.store.raffle->0;
            let (r, after) = cancel_outcome(f, CancelReason::AdminCancelled);
            let due = f.ledger.timestamp + ADMIN_CANCEL_DELAY_SECONDS;
            &&& r is Ok <==> (raffle.status is PendingPrize || raffle.status is Active
                || raffle.status is Drawing || raffle.status is Failed)
            &&& is_confirmed_by(f, after, f.store.admin->0)
            &&& r is Ok ==> {
                &&& after.store.pending_admin_cancel is Some
                &&& due <= u64::MAX ==> after.store.pending_admin_cancel->0 == due
                &&& due > u64::MAX ==> after.store.pending_admin_cancel->0 == u64::MAX
                &&& after.store == (StoreView {
                    pending_admin_cancel: after.store.pending_admin_cancel,
                    ..f.store
                })
                &&& after.actions.len() == f.actions.len() + 1
            }
        }),
        ({
            let raffle = g.store.raffle->0;
            let (r, after) = execute_admin_cancel_outcome(g);
            &&& r is Ok <==> {
                &&& g.store.pending_admin_cancel is Some
                &&& g.ledger.timestamp >= g.store.pending_admin_cancel->0
                &&& raffle.status is PendingPrize || raffle.status is Active || raffle.status is Drawing
                    || raffle.status is Failed
            }
            &&& is_confirmed_by(g, after, g.store.admin->0)
            &&& r is Ok ==> {
                &&& after.actions == g.actions.push(ActionView::RequireAuth(g.store.admin->0)).push(
                    told_of_end(g, CancelReason::AdminCancelled),
                )
                &&& after.store.pending_admin_cancel is None
                &&& is_called_off(
                    StoreView { pending_admin_cancel: None, ..g.store },
                    after.store,
                )
            }
        }),
{
}

/// Whoever bought a ticket of a raffle that is called off, has failed or is scheduled to
/// be called off gets the price of the ticket back, once, and in no other case.
pub proof fn tickets_are_paid_back(f: FrameView, ticket_id: u32)
    requires
        in_order(f.store),
        f.store.raffle is Some,
    ensures
        ({
            let raffle = f.store.raffle->0;
            let (r, after) = refund_ticket_outcome(f, ticket_id);
            &&& r is Ok <==> {
                &&& raffle.status is Failed || raffle.status is Cancelled
                    || f.store.pending_admin_cancel is Some
                &&& 1 <= ticket_id <= raffle.tickets_sold
                &&& !f.store.refunded.contains(ticket_id)
            }
            &&& r is Ok ==> {
                let owner = f.store.tickets[ticket_id].owner;
                &&& r->Ok_0 == raffle.ticket_price
                &&& is_confirmed_by(f, after, owner)
                &&& pays_once(
                    f,
                    after,
                    Payment {
                        token: raffle.payment_token,
                        from: f.ledger.contract,
                        to: owner,
                        amount: raffle.ticket_price,
                    },
                )
                &&& after.store == (StoreView {
                    refunded: f.store.refunded.insert(ticket_id),
                    ..f.store
                })
                &&& after.actions.last() == ActionView::Publish(
                    Event::TicketRefunded {
                        buyer: owner,
                        ticket_number: ticket_id,
                        amount: raffle.ticket_price,
                        timestamp: f.ledger.timestamp,
                    },
                )
            }
        }),
{
    let (r, after) = refund_ticket_outcome(f, ticket_id);
    let n = f.actions.len() as int;
    if r is Ok {
        lemma_payments_at(after.actions, n);
        lemma_payments_at(after.actions, n + 1);
        lemma_payments_at(after.actions, n + 2);
        assert(after.actions.take(n) =~= f.actions);
        assert(after.actions.take(n + 3) =~= after.actions);
    }
}

/// Whatever way a raffle has come to be called off or to fail, a ticket of it that was
/// not paid for yet is paid back on request, alone.
pub proof fn ended_raffles_pay_tickets_back(f: FrameView, ticket_id: u32)
    requires
        in_order(f.store),
        f.store.raffle is Some,
        f.store.raffle->0.status is Failed || f.store.raffle->0.status is Cancelled,
        1 <= ticket_id <= f.store.raffle->0.tickets_sold,
        !f.store.refunded.contains(ticket_id),
    ensures
        refund_ticket_outcome(f, ticket_id).0 == Ok::<i128, Error>(f.store.raffle->0.ticket_price),
{
    tickets_are_paid_back(f, ticket_id);
}

/// The creator gets the prize back exactly when the raffle is called off or has failed
/// and the prize is held, in one payment; then it is no longer held.
pub proof fn prizes_are_paid_back(f: FrameView)
    requires
        in_order(f.store),
        f.store.raffle is Some,
    ensures
        ({
            let raffle = f.store.raffle->0;
            let (r, after) = refund_prize_outcome(f);
            &&& r is Ok <==> (raffle.status is Failed || raffle.status is Cancelled)
                && raffle.prize_deposited
            &&& is_confirmed_by(f, after, raffle.creator)
            &&& r is Ok ==> {
                &&& pays_once(
                    f,
                    after,
                    Payment {
                        token: raffle.payment_token,
                        from: f.ledger.contract,
                        to: raffle.creator,
                        amount: raffle.prize_amount,
                    },
                )
                &&& after.store == f.store.with_raffle(
                    RaffleView { prize_deposited: false, ..raffle },
                )
                &&& after.actions.last() == ActionView::Publish(
                    Event::PrizeRefunded {
                        creator: raffle.creator,
                        amount: raffle.prize_amount,
                        token: raffle.payment_token,
                        timestamp: f.ledger.timestamp,
                    },
                )
            }
        }),
{
    if refund_prize_outcome(f).0 is Ok {
        refunds_pay_the_prize_once(f);
    }
}

/// Actions that are no payments add none.
proof fn lemma_no_payments(actions: Seq<ActionView>, from: int, to: int)
    requires
        0 <= from <= to <= actions.len(),
        forall|i: int|
            from <= i < to ==> !(#[trigger] actions[i] is TryTransfer) && !(actions[i] is Transfer),
    ensures
        payments_in(actions.take(to)) == payments_in(actions.take(from)),
    decreases to - from,
{
    if from < to {
        lemma_no_payments(actions, from, to - 1);
        lemma_payments_at(actions, to - 1);
    }
}

/// Tickets can be given back together exactly if each of them alone could.
proof fn lemma_batch_accepted(tickets: Map<u32, Ticket>, owner: Address, ids: Seq<u32>)
    ensures
        batch_refusal(tickets, owner, ids) is None <==> forall|i: int|
            0 <= i < ids.len() ==> tickets.contains_key(#[trigger] ids[i]) && tickets[ids[i]].owner
                == owner,
    decreases ids.len(),
{
    if ids.len() > 0 {
        let fewer = ids.drop_last();
        lemma_batch_accepted(tickets, owner, fewer);
        if batch_refusal(tickets, owner, ids) is None {
            assert forall|i: int| 0 <= i < ids.len() implies tickets.contains_key(#[trigger] ids[i])
                && tickets[ids[i]].owner == owner by {
                if i < fewer.len() {
                    assert(fewer[i] == ids[i]);
                }
            }
        }
        if forall|i: int|
            0 <= i < ids.len() ==> tickets.contains_key(#[trigger] ids[i]) && tickets[ids[i]].owner
                == owner {
            assert forall|i: int| 0 <= i < fewer.len() implies tickets.contains_key(
                #[trigger] fewer[i],
            ) && tickets[fewer[i]].owner == owner by {
                assert(fewer[i] == ids[i]);
            }
            assert(tickets.contains_key(ids[ids.len() - 1]));
        }
    }
}

/// A batch pays for each of its tickets that was not paid for before, once.
proof fn lemma_given_back_counts(done: Set<u32>, ids: Seq<u32>)
    ensures
        given_back(done, ids).no_duplicates(),
        given_back(done, ids).to_set() == ids.to_set().difference(done),
    decreases ids.len(),
{
    let all = given_back(done, ids);
    if ids.len() == 0 {
        assert(all.to_set() =~= ids.to_set().difference(done));
    } else {
        let fewer = ids.drop_last();
        let last = ids.last();
        let earlier = given_back(done, fewer);
        lemma_given_back_counts(done, fewer);
        assert forall|id: u32| #[trigger] ids.contains(id) == (fewer.contains(id) || id == last) by {
            if ids.contains(id) {
                let k = ids.index_of(id);
                if k < fewer.len() {
                    assert(fewer[k] == id);
                }
            }
            if fewer.contains(id) {
                let k = fewer.index_of(id);
                assert(ids[k] == id);
            }
            assert(ids[ids.len() - 1] == last);
        }
        assert forall|id: u32| #[trigger] earlier.contains(id) == (fewer.contains(id)
            && !done.contains(id)) by {
            assert(earlier.to_set().contains(id) == fewer.to_set().difference(done).contains(id));
        }
        assert(earlier.contains(last) ==> fewer.contains(last));
        assert(all.no_duplicates());
        assert forall|id: u32| #[trigger] all.to_set().contains(id) == ids.to_set().difference(
            done,
        ).contains(id) by {
            assert(ids.contains(id) == (fewer.contains(id) || id == last));
            if all.len() > earlier.len() {
                assert(all[earlier.len() as int] == last);
                if all.contains(id) {
                    let k = all.index_of(id);
                    if k < earlier.len() {
                        assert(earlier[k] == id);
                    }
                }
                if earlier.contains(id) {
                    let k = earlier.index_of(id);
                    assert(all[k] == id);
                }
            }
        }
        assert(all.to_set() =~= ids.to_set().difference(done));
    }
}

/// Tickets of a raffle that is called off or has failed can be given back together by
/// whoever owns all of them, up to the limit on a batch. Each that was not paid for
/// before is paid for once, at its price, all in one payment to the owner.
pub proof fn batches_are_paid_back(f: FrameView, owner: Address, ids: Seq<u32>)
    requires
        in_order(f.store),
        f.store.raffle is Some,
    ensures
        ({
            let raffle = f.store.raffle->0;
            let (r, after) = batch_refund_tickets_outcome(f, owner, ids);
            let paid_for = ids.to_set().difference(f.store.refunded);
            &&& r is Ok <==> {
                &&& raffle.status is Failed || raffle.status is Cancelled
                &&& ids.len() <= MAX_BATCH_REFUND
                &&& forall|i: int|
                    0 <= i < ids.len() ==> 1 <= #[trigger] ids[i] <= raffle.tickets_sold
                        && f.store.tickets[ids[i]].owner == owner
            }
            &&& is_confirmed_by(f, after, owner)
            &&& r is Ok ==> {
                &&& r->Ok_0 == paid_for.len() * raffle.ticket_price
                &&& r->Ok_0 == 0 <==> paid_for.len() == 0
                &&& payments_in(after.actions) == if paid_for.len() == 0 {
                    payments_in(f.actions)
                } else {
                    payments_in(f.actions).push(
                        Payment {
                            token: raffle.payment_token,
                            from: f.ledger.contract,
                            to: owner,
                            amount: r->Ok_0,
                        },
                    )
                }
                &&& after.store == (StoreView {
                    refunded: f.store.refunded.union(ids.to_set()),
                    ..f.store
                })
            }
        }),
{
    let raffle = f.store.raffle->0;
    let (r, after) = batch_refund_tickets_outcome(f, owner, ids);
    let new_ids = given_back(f.store.refunded, ids);
    let price = raffle.ticket_price as int;
    lemma_batch_accepted(f.store.tickets, owner, ids);
    assert forall|i: int| 0 <= i < ids.len() implies f.store.tickets.contains_key(#[trigger] ids[i])
        == (1 <= ids[i] <= raffle.tickets_sold) by {}
    if r is Ok {
        lemma_given_back_counts(f.store.refunded, ids);
        new_ids.unique_seq_to_set();
        lemma_given_back_is_short(f.store.refunded, ids);
        let count = new_ids.len() as int;
        assert(0 <= count * price <= 50 * 1_000_000_000_000_000_000_000) by (nonlinear_arith)
            requires
                0 <= count <= 50,
                0 <= price <= 1_000_000_000_000_000_000_000,
        ;
        assert(count * price == 0 <==> count == 0) by (nonlinear_arith)
            requires
                0 <= count,
                0 < price,
        ;
        let n = f.actions.len() as int;
        let m = n + 1 + count;
        lemma_no_payments(after.actions, n, m);
        assert(after.actions.take(n) =~= f.actions);
        if count > 0 {
            lemma_payments_at(after.actions, m);
            assert(after.actions.take(m + 1) =~= after.actions);
        } else {
            assert(after.actions.take(m) =~= after.actions);
        }
    }
}

/// A batch pays for no more tickets than it names.
proof fn lemma_given_back_is_short(done: Set<u32>, ids: Seq<u32>)
    ensures
        given_back(done, ids).len() <= ids.len(),
    decreases ids.len(),
{
    if ids.len() > 0 {
        lemma_given_back_is_short(done, ids.drop_last());
    }
}

/// The share of a tier in the prize: but for the last tier, which gets what the others
/// leave, it is the tier's basis points of the prize, rounded down.
pub proof fn tiers_get_their_shares(raffle: RaffleView, tier: int)
    requires
        raffle.wf(),
        0 <= tier < raffle.prizes.len(),
    ensures
        tier + 1 < raffle.prizes.len() ==> tier_prize(raffle, tier) == raffle.prize_amount
            * raffle.prizes[tier] / 10000,
        tier + 1 == raffle.prizes.len() ==> tier_prize(raffle, tier) == raffle.prize_amount
            - prizes_before(raffle, tier),
        prizes_before(raffle, 0) == 0,
        prizes_before(raffle, tier + 1) == prizes_before(raffle, tier) + tier_prize(raffle, tier),
{
    tiers_share_the_whole_prize(raffle);
}

/// The winner of a tier gets its share exactly when the raffle has been drawn, the
/// waiting time is over and the tier has a share that was not claimed. The claim pays it
/// once and marks this tier and no other, and the last claim settles the raffle.
pub proof fn winners_are_paid(f: FrameView, winner: Address, tier_index: u32)
    requires
        in_order(f.store),
        f.store.raffle is Some,
    ensures
        ({
            let raffle = f.store.raffle->0;
            let tier = tier_index as int;
            let (r, after) = claim_prize_outcome(f, winner, tier_index);
            let claimed = raffle.claimed_winners.update(tier, true);
            let all = forall|i: int| 0 <= i < claimed.len() ==> claimed[i];
            &&& is_confirmed_by(f, after, winner)
            &&& r is Ok <==> {
                &&& raffle.status is Finalized
                &&& f.ledger.timestamp >= raffle.finalized_at->0 + raffle.claim_lockup_seconds
                &&& tier < raffle.winners.len()
                &&& raffle.winners[tier] == winner
                &&& !raffle.claimed_winners[tier]
                &&& tier_prize(raffle, tier) > 0
            }
            &&& r is Ok ==> {
                &&& r->Ok_0 == tier_prize(raffle, tier)
                &&& pays_once(
                    f,
                    after,
                    Payment {
                        token: raffle.prize_token,
                        from: f.ledger.contract,
                        to: winner,
                        amount: r->Ok_0,
                    },
                )
                &&& after.store.raffle == Some(
                    RaffleView {
                        claimed_winners: claimed,
                        status: if all {
                            RaffleStatus::Claimed
                        } else {
                            RaffleStatus::Finalized
                        },
                        ..raffle
                    },
                )
                &&& after.store == (StoreView { raffle: after.store.raffle, ..f.store })
                &&& after.actions.last() == ActionView::Publish(
                    Event::PrizeClaimed {
                        winner,
                        tier_index,
                        payment_token: raffle.prize_token,
                        gross_amount: r->Ok_0,
                        net_amount: r->Ok_0,
                        platform_fee: 0,
                        claimed_at: f.ledger.timestamp,
                    },
                )
            }
        }),
{
    if claim_prize_outcome(f, winner, tier_index).0 is Ok {
        claims_pay_winners_their_tier(f, winner, tier_index);
    }
}

/// What the ticket of a number costs: the first tickets, up to the early bird percentage
/// of all, are sold at the price less the discount, rounded down, and the rest at the
/// price.
pub open spec fn cost_of_ticket(raffle: RaffleView, id: int) -> int {
    if id * 100 <= raffle.max_tickets * raffle.early_bird_ticket_percentage {
        raffle.ticket_price * (10000 - raffle.early_bird_discount_bp) / 10000
    } else {
        raffle.ticket_price as int
    }
}

/// What the `quantity` tickets behind the first `sold` cost.
pub open spec fn cost_of_next(raffle: RaffleView, sold: int, quantity: nat) -> int
    decreases quantity,
{
    if quantity == 0 {
        0
    } else {
        cost_of_next(raffle, sold, (quantity - 1) as nat) + cost_of_ticket(raffle, sold + quantity)
    }
}

proof fn lemma_cost_of_next(raffle: RaffleView, quantity: u32)
    ensures
        cost_of_next(raffle, raffle.tickets_sold as int, quantity as nat) == price_of_tickets(
            raffle,
            raffle.tickets_sold + 1,
            raffle.tickets_sold + quantity,
        ),
    decreases quantity,
{
    if quantity > 0 {
        lemma_cost_of_next(raffle, (quantity - 1) as u32);
        let id = raffle.tickets_sold + quantity;
        let all = raffle.max_tickets * raffle.early_bird_ticket_percentage;
        assert(id * 100 <= all <==> id <= all / 100);
    }
}

/// When a purchase succeeds: the raffle is on sale and its prize is held, neither the
/// contract nor the sale is paused, the end has not passed, no more tickets are asked for
/// than are left and than one purchase may have, and where one ticket each is the rule,
/// it is one and the buyer has none.
pub proof fn tickets_are_for_sale(f: FrameView, buyer: Address, quantity: u32, early_bird: bool)
    requires
        in_order(f.store),
        f.store.raffle is Some,
    ensures
        ({
            let raffle = f.store.raffle->0;
            &&& sale_outcome(f, buyer, quantity, early_bird).0 is Ok <==> {
                &&& raffle.status is Active
                &&& !f.store.paused && !raffle.ticket_sales_paused
                &&& raffle.no_deadline || f.ledger.timestamp <= raffle.end_time
                &&& 0 < quantity <= raffle.max_tickets_per_tx
                &&& raffle.tickets_sold + quantity <= raffle.max_tickets
                &&& raffle.allow_multiple || (quantity == 1 && forall|id: u32| #[trigger]
                    f.store.tickets.contains_key(id) ==> f.store.tickets[id].owner != buyer)
            }
        }),
{
    let raffle = f.store.raffle->0;
    let ids = f.store.tickets_of(buyer);
    assert(lists_tickets_of(f.store.tickets, buyer, ids));
    assert(f.store.count_of(buyer) == ids.len());
    if ids.len() > 0 {
        assert(f.store.tickets.contains_key(ids[0]) && f.store.tickets[ids[0]].owner == buyer);
    } else {
        assert forall|id: u32| #[trigger] f.store.tickets.contains_key(id) implies f.store.tickets[id].owner
            != buyer by {
            if f.store.tickets[id].owner == buyer {
                assert(ids.contains(id));
            }
        }
    }
}

/// A purchase gives the buyer the tickets that come next, and takes nothing from anybody:
/// each is written down under its number with its buyer and the time, the index lists
/// them behind the buyer's earlier ones, and every earlier ticket stays as it was.
pub proof fn purchases_hand_tickets_out(f: FrameView, buyer: Address, quantity: u32, early_bird: bool)
    requires
        in_order(f.store),
        sale_outcome(f, buyer, quantity, early_bird).0 is Ok,
    ensures
        ({
            let raffle = f.store.raffle->0;
            let (r, after) = sale_outcome(f, buyer, quantity, early_bird);
            let sold = raffle.tickets_sold;
            &&& r->Ok_0 == sold + quantity
            &&& after.store.raffle->0.tickets_sold == sold + quantity
            &&& is_confirmed_by(f, after, buyer)
            &&& forall|id: u32| #[trigger]
                after.store.tickets.contains_key(id) <==> 1 <= id <= sold + quantity
            &&& forall|id: u32|
                1 <= id <= sold ==> #[trigger] after.store.tickets[id] == f.store.tickets[id]
            &&& forall|id: u32|
                sold < id <= sold + quantity ==> #[trigger] after.store.tickets[id] == (Ticket {
                    id,
                    owner: buyer,
                    purchase_time: f.ledger.timestamp,
                    ticket_number: id,
                })
            &&& after.store.tickets_of(buyer).len() == f.store.tickets_of(buyer).len() + quantity
            &&& forall|i: int|
                0 <= i < f.store.tickets_of(buyer).len() ==> #[trigger] after.store.tickets_of(
                    buyer,
                )[i] == f.store.tickets_of(buyer)[i]
            &&& forall|i: int|
                0 <= i < quantity ==> #[trigger] after.store.tickets_of(buyer)[f.store.tickets_of(
                    buyer,
                ).len() + i] == sold + 1 + i
            &&& after.store.count_of(buyer) == f.store.count_of(buyer) + quantity
            &&& after.store.ticket_buyers.contains(buyer)
            &&& forall|a: Address|
                a != buyer ==> #[trigger] after.store.tickets_of(a) == f.store.tickets_of(a)
                    && after.store.count_of(a) == f.store.count_of(a)
            &&& after.store.refunded == f.store.refunded
            &&& after.store.commit_entries == f.store.commit_entries
            &&& after.store.randomness_seed == f.store.randomness_seed
        }),
{
    let after = sale_outcome(f, buyer, quantity, early_bird).1.store;
    assert(f.store.count_of(buyer) == f.store.tickets_of(buyer).len());
    assert(f.store.count_of(buyer) <= f.store.raffle->0.tickets_sold);
    if f.store.count_of(buyer) == 0 {
        assert(after.ticket_buyers.last() == buyer);
    } else {
        assert(f.store.ticket_buyers.contains(buyer));
    }
}

/// A purchase costs the buyer what its tickets cost by their numbers, in one payment.
/// The protocol's part of that, rounded down, is counted as a fee, and goes to the
/// treasury at once if there is one. No other payment is made.
pub proof fn purchases_are_paid_for(f: FrameView, buyer: Address, quantity: u32, early_bird: bool)
    requires
        in_order(f.store),
        sale_outcome(f, buyer, quantity, early_bird).0 is Ok,
    ensures
        ({
            let raffle = f.store.raffle->0;
            let after = sale_outcome(f, buyer, quantity, early_bird).1;
            let cost = if early_bird {
                cost_of_next(raffle, raffle.tickets_sold as int, quantity as nat)
            } else {
                raffle.ticket_price * quantity
            };
            let fee = cost * raffle.protocol_fee_bp / 10000;
            let paid = payments_in(f.actions).push(
                Payment {
                    token: raffle.payment_token,
                    from: buyer,
                    to: f.ledger.contract,
                    amount: cost as i128,
                },
            );
            &&& 0 <= fee <= cost <= i128::MAX
            &&& after.store.accumulated_fees == f.store.accumulated_fees + fee
            &&& payments_in(after.actions) == if fee > 0 && raffle.treasury_address is Some {
                paid.push(
                    Payment {
                        token: raffle.payment_token,
                        from: f.ledger.contract,
                        to: raffle.treasury_address->0,
                        amount: fee as i128,
                    },
                )
            } else {
                paid
            }
        }),
{
    let raffle = f.store.raffle->0;
    let after = sale_outcome(f, buyer, quantity, early_bird).1;
    lemma_costs(raffle, quantity, early_bird);
    let cost = cost_of(raffle, quantity, early_bird);
    let fee = fee_of(raffle, quantity, early_bird);
    if early_bird {
        lemma_cost_of_next(raffle, quantity);
        discounts_go_to_the_first_tickets(raffle, quantity);
    } else {
        assert(early_bird_price(raffle) * 0 == 0) by (nonlinear_arith);
    }
    let sold = raffle.tickets_sold as int;
    let price = raffle.ticket_price as int;
    assert(sold * price <= 100_000_000_000_000_000_000_000_000) by (nonlinear_arith)
        requires
            0 <= sold <= 100_000,
            0 <= price <= 1_000_000_000_000_000_000_000,
    ;
    let n = f.actions.len() as int;
    let last = after.actions.len() as int;
    let treasury = fee > 0 && raffle.treasury_address is Some;
    let k = if treasury {
        last - 3
    } else {
        last - 2
    };
    lemma_no_payments(after.actions, n, k);
    lemma_payments_at(after.actions, k);
    if treasury {
        lemma_payments_at(after.actions, k + 1);
    }
    lemma_payments_at(after.actions, last - 1);
    assert(after.actions.take(n) =~= f.actions);
    assert(after.actions.take(last) =~= after.actions);
}

/// The last ticket begins the draw: no ticket can be sold any more, and an oracle, if
/// the raffle has one, is asked for its seed. Any other purchase leaves the raffle on
/// sale.
pub proof fn the_last_ticket_begins_the_draw(
    f: FrameView,
    buyer: Address,
    quantity: u32,
    early_bird: bool,
)
    requires
        in_order(f.store),
        sale_outcome(f, buyer, quantity, early_bird).0 is Ok,
    ensures
        ({
            let raffle = f.store.raffle->0;
            let after = sale_outcome(f, buyer, quantity, early_bird).1.store;
            let last = raffle.tickets_sold + quantity == raffle.max_tickets;
            let asked = last && raffle.randomness_source is External;
            &&& after.raffle == Some(
                RaffleView {
                    tickets_sold: (raffle.tickets_sold + quantity) as u32,
                    status: if last {
                        RaffleStatus::Drawing
                    } else {
                        RaffleStatus::Active
                    },
                    ..raffle
                },
            )
            &&& after.drawing_lock <==> last
            &&& after.randomness_requested <==> asked
            &&& asked ==> after.randomness_request_ledger == Some(f.ledger.sequence)
                && after.randomness_request_id == Some(
                digest_seed(
                    xdr_of_request(
                        f.ledger.timestamp,
                        f.ledger.sequence,
                        xdr_of_address(f.ledger.contract),
                    ),
                ),
            )
        }),
{
}

/// The factory hears of every purchase: of its volume and of who takes part.
pub proof fn factories_hear_of_purchases(
    f: FrameView,
    buyer: Address,
    quantity: u32,
    early_bird: bool,
)
    requires
        in_order(f.store),
        sale_outcome(f, buyer, quantity, early_bird).0 is Ok,
    ensures
        ({
            let raffle = f.store.raffle->0;
            let after = sale_outcome(f, buyer, quantity, early_bird).1;
            let cost = if early_bird {
                cost_of_next(raffle, raffle.tickets_sold as int, quantity as nat)
            } else {
                raffle.ticket_price * quantity
            };
            &&& after.actions.contains(
                ActionView::RecordVolume {
                    factory: f.store.factory->0,
                    token: raffle.payment_token,
                    amount: cost as i128,
                },
            )
            &&& after.actions.contains(
                ActionView::TrackParticipant {
                    factory: f.store.factory->0,
                    participant: buyer,
                },
            )
            &&& after.actions.last() == (ActionView::PublishPurchase {
                buyer,
                ticket_ids: Seq::new(
                    quantity as nat,
                    |i: int| (raffle.tickets_sold + 1 + i) as u32,
                ),
                quantity,
                ticket_price: raffle.ticket_price,
                effective_ticket_price: (if early_bird {
                    cost_of_ticket(raffle, raffle.tickets_sold + 1)
                } else {
                    raffle.ticket_price as int
                }) as i128,
                total_paid: cost as i128,
                protocol_fee: (cost * raffle.protocol_fee_bp / 10000) as i128,
                timestamp: f.ledger.timestamp,
            })
        }),
{
    let raffle = f.store.raffle->0;
    let after = sale_outcome(f, buyer, quantity, early_bird).1;
    if early_bird {
        lemma_cost_of_next(raffle, quantity);
        discounts_go_to_the_first_tickets(raffle, quantity);
    } else {
        assert(early_bird_price(raffle) * 0 == 0) by (nonlinear_arith);
    }
    let id = raffle.tickets_sold + 1;
    let all = raffle.max_tickets * raffle.early_bird_ticket_percentage;
    assert(id * 100 <= all <==> raffle.tickets_sold < all / 100);
    let last = after.actions.len() as int;
    let k = if fee_of(raffle, quantity, early_bird) > 0 && raffle.treasury_address is Some {
        last - 5
    } else {
        last - 4
    };
    assert(after.actions[k] is RecordVolume);
    assert(after.actions[k + 1] is TrackParticipant);
}

/// Whoever owns a ticket can commit a hash for it while the raffle is on sale or being
/// drawn, if the raffle asks for hashes. The hash is kept as it is, in place of an
/// earlier one.
pub proof fn hashes_are_kept(f: FrameView, ticket_id: u32, hash: [u8; 32])
    requires
        in_order(f.store),
        f.store.raffle is Some,
    ensures
        ({
            let raffle = f.store.raffle->0;
            let owner = f.store.tickets[ticket_id].owner;
            let (r, after) = submit_commit_outcome(f, ticket_id, hash);
            &&& r is Ok <==> {
                &&& raffle.randomness_source is CommitReveal
                &&& raffle.status is Active || raffle.status is Drawing
                &&& 1 <= ticket_id <= raffle.tickets_sold
            }
            &&& r is Ok ==> {
                &&& after.actions == f.actions.push(ActionView::RequireAuth(owner))
                &&& after.store.commit_entries.contains_key(ticket_id)
                &&& after.store.commit_entries[ticket_id].hash == hash
                &&& after.store.commit_entries[ticket_id].committer == owner
                &&& after.store.commit_entries.remove(ticket_id)
                    == f.store.commit_entries.remove(ticket_id)
                &&& after.store == (StoreView {
                    commit_entries: after.store.commit_entries,
                    ..f.store
                })
            }
        }),
{
    let after = submit_commit_outcome(f, ticket_id, hash).1;
    assert(after.store.commit_entries.remove(ticket_id) =~= f.store.commit_entries.remove(ticket_id));
}

/// How many of the tickets up to a number have a hash committed.
pub open spec fn commitments_up_to(entries: Map<u32, CommitRevealEntry>, id: u32) -> nat
    decreases id,
{
    if id == 0 {
        0
    } else {
        commitments_up_to(entries, (id - 1) as u32) + if entries.contains_key(id) {
            1nat
        } else {
            0nat
        }
    }
}

/// The hashes that were committed make the seed one behind the other, in the order of the
/// tickets: each of them whole, and nothing else.
pub proof fn hashes_stand_in_the_order_of_the_tickets(
    entries: Map<u32, CommitRevealEntry>,
    tickets_sold: u32,
    ticket_id: u32,
)
    ensures
        committed_hashes(entries, tickets_sold).len() == 32 * commitments_up_to(
            entries,
            tickets_sold,
        ),
        1 <= ticket_id <= tickets_sold && entries.contains_key(ticket_id) ==> {
            let at = 32 * commitments_up_to(entries, (ticket_id - 1) as u32) as int;
            &&& at + 32 <= committed_hashes(entries, tickets_sold).len()
            &&& committed_hashes(entries, tickets_sold).subrange(at, at + 32)
                == entries[ticket_id].hash@
        },
    decreases tickets_sold,
{
    if tickets_sold > 0 {
        let fewer = (tickets_sold - 1) as u32;
        hashes_stand_in_the_order_of_the_tickets(entries, fewer, ticket_id);
        let before = committed_hashes(entries, fewer);
        let all = committed_hashes(entries, tickets_sold);
        if 1 <= ticket_id <= tickets_sold && entries.contains_key(ticket_id) {
            let at = 32 * commitments_up_to(entries, (ticket_id - 1) as u32) as int;
            if ticket_id == tickets_sold {
                assert(all.subrange(at, at + 32) =~= entries[ticket_id].hash@);
            } else {
                assert(all.subrange(at, at + 32) =~= before.subrange(at, at + 32));
            }
        }
    }
}

/// The seeds of the generator are digests of all that they are made of, and there is none
/// exactly where a digest is all zero.
pub proof fn seeds_are_digests(
    timestamp: u64,
    sequence: u32,
    network_id: Seq<u8>,
    raffle_id: Address,
    base: Seq<u8>,
    tickets_sold: u32,
)
    ensures
        ({
            let first = sha256_of(xdr_of_seed_inputs(timestamp, sequence, network_id, raffle_id));
            let second = sha256_of(xdr_of_seed_and_tickets(base, tickets_sold));
            let third = sha256_of(base);
            let seed = internal_seed_of(timestamp, sequence, network_id, raffle_id);
            let mixed = mixed_seed_of(Some(base), tickets_sold);
            let print = fingerprint_of(Some(base));
            &&& (exists|i: int| 0 <= i < first.len() && first[i] != 0) ==> seed == Some(first)
            &&& !(exists|i: int| 0 <= i < first.len() && first[i] != 0) ==> seed is None
            &&& (exists|i: int| 0 <= i < second.len() && second[i] != 0) ==> mixed == Some(second)
            &&& !(exists|i: int| 0 <= i < second.len() && second[i] != 0) ==> mixed is None
            &&& (exists|i: int| 0 <= i < third.len() && third[i] != 0) ==> print == Some(
                digest_seed(base),
            )
            &&& !(exists|i: int| 0 <= i < third.len() && third[i] != 0) ==> print is None
            &&& mixed_seed_of(None, tickets_sold) is None && fingerprint_of(None) is None
        }),
{
}

/// The record of a draw is published as it was written, with the numbers of all tickets
/// that were sold; before the first draw there is none.
pub proof fn records_are_published(store: StoreView)
    requires
        store.raffle is Some,
    ensures
        store.randomness_seed is None ==> fairness_data_of(store) == Err::<FairnessDataView, Error>(
            Error::InvalidStatus,
        ),
        store.randomness_seed is Some ==> {
            let record = store.randomness_seed->0;
            let data = fairness_data_of(store)->Ok_0;
            &&& fairness_data_of(store) is Ok
            &&& data.seed == record.seed
            &&& data.randomness_source == record.randomness_source
            &&& data.winning_ticket_indices == record.winning_ticket_indices
            &&& data.draw_timestamp == record.draw_timestamp
            &&& data.draw_sequence == record.draw_sequence
            &&& data.ticket_ids.len() == store.raffle->0.tickets_sold
            &&& forall|i: int|
                0 <= i < data.ticket_ids.len() ==> #[trigger] data.ticket_ids[i] == i + 1
        },
{
}

} // verus!
