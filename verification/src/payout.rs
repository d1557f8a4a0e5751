//! Paying prizes out, and paying back.

use crate::action::{Action, ActionView, Event, Payment};
use crate::address::Address;
use crate::admin::{is_settled, settled};
use crate::contract::Contract;
use crate::draw::{call_off, called_off, cancel_news};
use crate::error::Error;
use crate::helpers::{acquire_guard, calculate_tier_prize, release_guard, tier_prize};
use crate::store::{Frame, FrameView, Store, StoreView};
use crate::types::{CancelReason, Raffle, RaffleStatus, RaffleView, Ticket};
use std::collections::HashMap;
use vstd::prelude::*;

verus! {

broadcast use vstd::std_specs::hash::group_hash_axioms;

/// Whether the time from which prizes can be claimed lies ahead.
pub open spec fn claims_are_locked(raffle: RaffleView, now: u64) -> bool {
    raffle.finalized_at is Some && now < raffle.finalized_at->0 + raffle.claim_lockup_seconds
}

/// Why a claim that the winner has confirmed is refused, if it is.
pub open spec fn claim_refusal(store: StoreView, winner: Address, tier_index: u32, now: u64) -> Option<Error> {
    if store.raffle is None {
        Some(Error::NotInitialized)
    } else {
        let raffle = store.raffle->0;
        if raffle.status !is Finalized {
            Some(Error::InvalidStatus)
        } else if claims_are_locked(raffle, now) {
            Some(Error::ClaimTooEarly)
        } else if tier_index >= raffle.winners.len() {
            Some(Error::InvalidParameters)
        } else if raffle.winners[tier_index as int] != winner {
            Some(Error::NotWinner)
        } else if raffle.claimed_winners[tier_index as int] {
            Some(Error::PrizeAlreadyClaimed)
        } else if tier_prize(raffle, tier_index as int) <= 0 {
            Some(Error::ZeroPrize)
        } else {
            None
        }
    }
}

/// Whether every tier has been claimed.
pub open spec fn all_claimed(claimed: Seq<bool>) -> bool {
    forall|i: int| 0 <= i < claimed.len() ==> claimed[i]
}

/// A raffle after a tier has been claimed.
pub open spec fn tier_claimed(raffle: RaffleView, tier_index: u32) -> RaffleView {
    let claimed = raffle.claimed_winners.update(tier_index as int, true);
    RaffleView {
        claimed_winners: claimed,
        status: if all_claimed(claimed) {
            RaffleStatus::Claimed
        } else {
            raffle.status
        },
        ..raffle
    }
}

/// The frame after a prize has been claimed.
pub open spec fn claimed_frame(f: FrameView, winner: Address, tier_index: u32) -> FrameView {
    let raffle = f.store.raffle->0;
    let after = tier_claimed(raffle, tier_index);
    let amount = tier_prize(raffle, tier_index as int) as i128;
    let now = f.ledger.timestamp;
    let marked = f.with_store(f.store.with_raffle(after));
    let told = if after.status is Claimed {
        marked.act(
            ActionView::Publish(
                Event::RaffleStatusChanged {
                    old_status: RaffleStatus::Finalized,
                    new_status: RaffleStatus::Claimed,
                    timestamp: now,
                },
            ),
        )
    } else {
        marked
    };
    told.act(
        ActionView::TryTransfer(
            Payment { token: raffle.prize_token, from: f.ledger.contract, to: winner, amount },
        ),
    ).act(
        ActionView::Publish(
            Event::PrizeClaimed {
                winner,
                tier_index,
                payment_token: raffle.prize_token,
                gross_amount: amount,
                net_amount: amount,
                platform_fee: 0,
                claimed_at: now,
            },
        ),
    )
}

/// What [`Contract::claim_prize`] comes to.
pub open spec fn claim_prize_outcome(f: FrameView, winner: Address, tier_index: u32) -> (
    Result<i128, Error>,
    FrameView,
) {
    let g = f.act(ActionView::RequireAuth(winner));
    let refusal = claim_refusal(f.store, winner, tier_index, f.ledger.timestamp);
    if f.store.reentrancy_guard {
        (Err(Error::Reentrancy), g)
    } else if refusal is Some {
        (Err(refusal->0), g)
    } else {
        (
            Ok(tier_prize(f.store.raffle->0, tier_index as int) as i128),
            claimed_frame(g, winner, tier_index),
        )
    }
}

/// Finds why a claim is refused, if it is, and else what it pays.
fn check_claim(store: &Store, winner: Address, tier_index: u32, now: u64) -> (r: Result<i128, Error>)
    requires
        store@.raffle is Some ==> store@.raffle->0.wf(),
        store.raffle is Some && store.raffle->0.status is Finalized
            ==> store.raffle->0.finalized_at->0 + store.raffle->0.claim_lockup_seconds <= u64::MAX,
    ensures
        match r {
            Ok(amount) => claim_refusal(store@, winner, tier_index, now) is None && amount
                == tier_prize(store@.raffle->0, tier_index as int),
            Err(e) => claim_refusal(store@, winner, tier_index, now) == Some(e),
        },
{
    let raffle = match &store.raffle {
        Some(raffle) => raffle,
        None => return Err(Error::NotInitialized),
    };
    if raffle.status != RaffleStatus::Finalized {
        return Err(Error::InvalidStatus);
    }
    match raffle.finalized_at {
        Some(finalized_at) => {
            if now < finalized_at + raffle.claim_lockup_seconds {
                return Err(Error::ClaimTooEarly);
            }
        },
        None => {},
    }
    if tier_index as usize >= raffle.winners.len() {
        return Err(Error::InvalidParameters);
    }
    if raffle.winners[tier_index as usize] != winner {
        return Err(Error::NotWinner);
    }
    if raffle.claimed_winners[tier_index as usize] {
        return Err(Error::PrizeAlreadyClaimed);
    }
    match calculate_tier_prize(raffle, tier_index) {
        Ok(amount) => {
            if amount <= 0 {
                Err(Error::ZeroPrize)
            } else {
                Ok(amount)
            }
        },
        Err(e) => Err(e),
    }
}

/// Marks a tier as claimed, and returns whether every tier now is.
fn mark_claimed(raffle: &mut Raffle, tier_index: u32) -> (r: bool)
    requires
        old(raffle).status is Finalized,
        tier_index < old(raffle).claimed_winners@.len(),
    ensures
        final(raffle)@ == tier_claimed(old(raffle)@, tier_index),
        r == (final(raffle).status is Claimed),
{
    raffle.claimed_winners.set(tier_index as usize, true);
    let mut i: usize = 0;
    while i < raffle.claimed_winners.len()
        invariant
            i <= raffle.claimed_winners@.len(),
            forall|j: int| 0 <= j < i ==> raffle.claimed_winners@[j],
            raffle.claimed_winners@ == old(raffle)@.claimed_winners.update(tier_index as int, true),
            *raffle == (Raffle { claimed_winners: raffle.claimed_winners, ..*old(raffle) }),
            old(raffle).status is Finalized,
        decreases raffle.claimed_winners@.len() - i,
    {
        if !raffle.claimed_winners[i] {
            assert(!all_claimed(raffle.claimed_winners@));
            return false;
        }
        i += 1;
    }
    raffle.status = RaffleStatus::Claimed;
    true
}

/// Pays a prize out, once the check has been passed.
fn pay_claim(frame: &mut Frame, winner: Address, tier_index: u32, amount: i128)
    requires
        old(frame).store.raffle is Some,
        old(frame).store.raffle->0.status is Finalized,
        tier_index < old(frame).store.raffle->0.claimed_winners@.len(),
        amount == tier_prize(old(frame)@.store.raffle->0, tier_index as int),
    ensures
        final(frame)@ == claimed_frame(old(frame)@, winner, tier_index),
{
    let now: u64 = frame.ledger.timestamp;
    let contract = frame.ledger.contract;
    let raffle = frame.store.raffle_mut();
    let token = raffle.prize_token;
    if mark_claimed(raffle, tier_index) {
        frame.act(
            Action::Publish(
                Event::RaffleStatusChanged {
                    old_status: RaffleStatus::Finalized,
                    new_status: RaffleStatus::Claimed,
                    timestamp: now,
                },
            ),
        );
    }
    frame.act(
        Action::TryTransfer(Payment { token, from: contract, to: winner, amount }),
    );
    frame.act(
        Action::Publish(
            Event::PrizeClaimed {
                winner,
                tier_index,
                payment_token: token,
                gross_amount: amount,
                net_amount: amount,
                platform_fee: 0,
                claimed_at: now,
            },
        ),
    );
}

/// What [`Contract::execute_admin_cancel`] comes to.
pub open spec fn execute_admin_cancel_outcome(f: FrameView) -> (Result<(), Error>, FrameView) {
    match f.store.admin {
        None => (Err(Error::NotAuthorized), f),
        Some(admin) => {
            let g = f.act(ActionView::RequireAuth(admin));
            if f.store.pending_admin_cancel is None {
                (Err(Error::CancelNotScheduled), g)
            } else if f.store.raffle is None {
                (Err(Error::NotInitialized), g)
            } else if is_settled(f.store.raffle->0.status) {
                (Err(Error::InvalidStatus), g)
            } else if f.ledger.timestamp < f.store.pending_admin_cancel->0 {
                (Err(Error::CancelTimelockActive), g)
            } else {
                (
                    Ok(()),
                    g.with_store(
                        StoreView { pending_admin_cancel: None, ..called_off(f.store) },
                    ).act(cancel_news(f, CancelReason::AdminCancelled)),
                )
            }
        },
    }
}

/// What [`Contract::refund_prize`] comes to.
pub open spec fn refund_prize_outcome(f: FrameView) -> (Result<(), Error>, FrameView) {
    match f.store.raffle {
        None => (Err(Error::NotInitialized), f),
        Some(raffle) => {
            let g = f.act(ActionView::RequireAuth(raffle.creator));
            let payment = Payment {
                token: raffle.payment_token,
                from: f.ledger.contract,
                to: raffle.creator,
                amount: raffle.prize_amount,
            };
            if raffle.status !is Cancelled && raffle.status !is Failed {
                (Err(Error::InvalidStatus), g)
            } else if !raffle.prize_deposited {
                (Err(Error::PrizeNotDeposited), g)
            } else {
                (
                    Ok(()),
                    g.with_store(
                        f.store.with_raffle(RaffleView { prize_deposited: false, ..raffle }),
                    ).act(ActionView::TryTransfer(payment)).act(
                        ActionView::Publish(
                            Event::PrizeRefunded {
                                creator: raffle.creator,
                                amount: raffle.prize_amount,
                                token: raffle.prize_token,
                                timestamp: f.ledger.timestamp,
                            },
                        ),
                    ),
                )
            }
        },
    }
}

/// Whether tickets can be given back one by one: once the raffle is called off or has
/// failed, or as soon as it is scheduled to be called off.
pub open spec fn refunds_are_open(store: StoreView) -> bool {
    &&& store.raffle is Some
    &&& store.raffle->0.status is Cancelled || store.raffle->0.status is Failed
        || store.pending_admin_cancel is Some
}

/// The news that a ticket was given back.
pub open spec fn refund_news(ticket: Ticket, amount: i128, timestamp: u64) -> ActionView {
    ActionView::Publish(
        Event::TicketRefunded {
            buyer: ticket.owner,
            ticket_number: ticket.ticket_number,
            amount,
            timestamp,
        },
    )
}

/// What [`Contract::refund_ticket`] comes to.
pub open spec fn refund_ticket_outcome(f: FrameView, ticket_id: u32) -> (
    Result<i128, Error>,
    FrameView,
) {
    if f.store.raffle is None {
        (Err(Error::NotInitialized), f)
    } else if !refunds_are_open(f.store) {
        (Err(Error::InvalidStatus), f)
    } else if f.store.reentrancy_guard {
        (Err(Error::Reentrancy), f)
    } else {
        pay_back_outcome(f, ticket_id)
    }
}

/// Why tickets cannot be given back together, if they cannot: the first of them that
/// does not exist or belongs to somebody else.
pub open spec fn batch_refusal(tickets: Map<u32, Ticket>, owner: Address, ids: Seq<u32>) -> Option<Error>
    decreases ids.len(),
{
    if ids.len() == 0 {
        None
    } else {
        let earlier = batch_refusal(tickets, owner, ids.drop_last());
        if earlier is Some {
            earlier
        } else if !tickets.contains_key(ids.last()) {
            Some(Error::TicketNotFound)
        } else if tickets[ids.last()].owner != owner {
            Some(Error::NotAuthorized)
        } else {
            None
        }
    }
}

/// The tickets of a batch that were not given back before, each once.
pub open spec fn given_back(done: Set<u32>, ids: Seq<u32>) -> Seq<u32>
    decreases ids.len(),
{
    if ids.len() == 0 {
        Seq::empty()
    } else {
        let earlier = given_back(done, ids.drop_last());
        if done.contains(ids.last()) || ids.drop_last().contains(ids.last()) {
            earlier
        } else {
            earlier.push(ids.last())
        }
    }
}

/// The news that tickets were given back.
pub open spec fn batch_news(tickets: Map<u32, Ticket>, ids: Seq<u32>, amount: i128, timestamp: u64) -> Seq<
    ActionView,
> {
    Seq::new(ids.len(), |i: int| refund_news(tickets[ids[i]], amount, timestamp))
}

/// The frame after tickets have been given back together.
pub open spec fn batch_refunded_frame(f: FrameView, owner: Address, ids: Seq<u32>) -> FrameView {
    let raffle = f.store.raffle->0;
    let new_ids = given_back(f.store.refunded, ids);
    let total = new_ids.len() * raffle.ticket_price;
    let marked = FrameView {
        ledger: f.ledger,
        store: StoreView {
            refunded: f.store.refunded.union(ids.to_set()),
            ..f.store
        },
        actions: f.actions + batch_news(
            f.store.tickets,
            new_ids,
            raffle.ticket_price,
            f.ledger.timestamp,
        ),
    };
    if total > 0 {
        marked.act(
            ActionView::Transfer(
                Payment {
                    token: raffle.payment_token,
                    from: f.ledger.contract,
                    to: owner,
                    amount: total as i128,
                },
            ),
        )
    } else {
        marked
    }
}

/// What [`Contract::batch_refund_tickets`] comes to.
pub open spec fn batch_refund_tickets_outcome(f: FrameView, owner: Address, ids: Seq<u32>) -> (
    Result<i128, Error>,
    FrameView,
) {
    let g = f.act(ActionView::RequireAuth(owner));
    if f.store.reentrancy_guard {
        (Err(Error::Reentrancy), g)
    } else {
        batch_outcome(g, owner, ids)
    }
}

/// How many tickets can be given back together.
pub const MAX_BATCH_REFUND: usize = 50;

/// Finds why tickets cannot be given back together.
fn check_batch(tickets: &HashMap<u32, Ticket>, owner: Address, ids: &Vec<u32>) -> (r: Option<Error>)
    ensures
        r == batch_refusal(tickets@, owner, ids@),
{
    let mut i: usize = 0;
    while i < ids.len()
        invariant
            i <= ids@.len(),
            batch_refusal(tickets@, owner, ids@.take(i as int)) is None,
        decreases ids@.len() - i,
    {
        assert(ids@.take(i + 1).drop_last() =~= ids@.take(i as int));
        match tickets.get(&ids[i]) {
            Some(ticket) => {
                if ticket.owner != owner {
                    proof {
                        lemma_refusal_stays(tickets@, owner, ids@, i + 1);
                    }
                    return Some(Error::NotAuthorized);
                }
            },
            None => {
                proof {
                    lemma_refusal_stays(tickets@, owner, ids@, i + 1);
                }
                return Some(Error::TicketNotFound);
            },
        }
        i += 1;
    }
    assert(ids@.take(i as int) =~= ids@);
    None
}

/// Tickets that cannot be given back together cannot be with more behind them.
proof fn lemma_refusal_stays(tickets: Map<u32, Ticket>, owner: Address, ids: Seq<u32>, n: int)
    requires
        0 <= n <= ids.len(),
        batch_refusal(tickets, owner, ids.take(n)) is Some,
    ensures
        batch_refusal(tickets, owner, ids) == batch_refusal(tickets, owner, ids.take(n)),
    decreases ids.len() - n,
{
    if n == ids.len() {
        assert(ids.take(n) =~= ids);
    } else {
        assert(ids.take(n + 1).drop_last() =~= ids.take(n));
        lemma_refusal_stays(tickets, owner, ids, n + 1);
    }
}

/// Every ticket of a batch that can be given back exists.
pub proof fn lemma_batch_exists(tickets: Map<u32, Ticket>, owner: Address, ids: Seq<u32>)
    requires
        batch_refusal(tickets, owner, ids) is None,
    ensures
        forall|i: int| 0 <= i < ids.len() ==> tickets.contains_key(#[trigger] ids[i]),
    decreases ids.len(),
{
    if ids.len() > 0 {
        lemma_batch_exists(tickets, owner, ids.drop_last());
        assert forall|i: int| 0 <= i < ids.len() implies tickets.contains_key(#[trigger] ids[i]) by {
            if i < ids.len() - 1 {
                assert(ids[i] == ids.drop_last()[i]);
            }
        }
    }
}

/// Marks the tickets of a batch as given back, and returns how many were not before.
fn give_back(frame: &mut Frame, ids: &Vec<u32>, price: i128) -> (count: usize)
    requires
        forall|i: int| 0 <= i < ids@.len() ==> old(frame)@.store.tickets.contains_key(
            #[trigger] ids@[i],
        ),
    ensures
        count == given_back(old(frame)@.store.refunded, ids@).len(),
        count <= ids@.len(),
        final(frame)@ == (FrameView {
            ledger: old(frame)@.ledger,
            store: StoreView {
                refunded: old(frame)@.store.refunded.union(ids@.to_set()),
                ..old(frame)@.store
            },
            actions: old(frame)@.actions + batch_news(
                old(frame)@.store.tickets,
                given_back(old(frame)@.store.refunded, ids@),
                price,
                old(frame)@.ledger.timestamp,
            ),
        }),
{
    let ghost f = frame@;
    let ghost done = f.store.refunded;
    let now: u64 = frame.ledger.timestamp;
    let mut count: usize = 0;
    let mut i: usize = 0;
    assert(done.union(ids@.take(0).to_set()) =~= done);
    assert(f.actions + batch_news(f.store.tickets, given_back(done, ids@.take(0)), price, now)
        =~= f.actions);
    while i < ids.len()
        invariant
            i <= ids@.len(),
            count <= i,
            f == old(frame)@,
            now == f.ledger.timestamp,
            done == f.store.refunded,
            forall|k: int| 0 <= k < ids@.len() ==> f.store.tickets.contains_key(#[trigger] ids@[k]),
            count == given_back(done, ids@.take(i as int)).len(),
            frame.ledger == f.ledger,
            frame.store@ == (StoreView {
                refunded: done.union(ids@.take(i as int).to_set()),
                ..f.store
            }),
            frame@.actions == f.actions + batch_news(
                f.store.tickets,
                given_back(done, ids@.take(i as int)),
                price,
                now,
            ),
        decreases ids@.len() - i,
    {
        let id: u32 = ids[i];
        let ghost fewer = ids@.take(i as int);
        let ghost more = ids@.take(i + 1);
        proof {
            assert(more =~= fewer.push(id));
            assert(more.drop_last() =~= fewer);
            lemma_set_of_more(fewer, more, id);
            assert(done.union(more.to_set()) =~= done.union(fewer.to_set()).insert(id));
        }
        if !frame.store.refunded.contains(&id) {
            assert(!fewer.contains(id));
            let ticket = match frame.store.tickets.get(&id) {
                Some(ticket) => *ticket,
                None => Ticket { id, owner: frame.ledger.contract, purchase_time: 0, ticket_number: id },
            };
            frame.store.refunded.insert(id);
            frame.act(
                Action::Publish(
                    Event::TicketRefunded {
                        buyer: ticket.owner,
                        ticket_number: ticket.ticket_number,
                        amount: price,
                        timestamp: now,
                    },
                ),
            );
            count += 1;
            proof {
                let before = given_back(done, fewer);
                assert(given_back(done, more) =~= before.push(id));
                assert(batch_news(f.store.tickets, before.push(id), price, now) =~= batch_news(
                    f.store.tickets,
                    before,
                    price,
                    now,
                ).push(refund_news(f.store.tickets[id], price, now)));
                assert(frame@.actions =~= f.actions + batch_news(
                    f.store.tickets,
                    before.push(id),
                    price,
                    now,
                ));
            }
        } else {
            proof {
                assert(done.contains(id) || fewer.contains(id));
                assert(done.union(fewer.to_set()).insert(id) =~= done.union(fewer.to_set()));
            }
        }
        i += 1;
    }
    assert(ids@.take(i as int) =~= ids@);
    count
}

proof fn lemma_set_of_more(fewer: Seq<u32>, more: Seq<u32>, id: u32)
    requires
        more == fewer.push(id),
    ensures
        more.to_set() == fewer.to_set().insert(id),
{
    assert forall|x: u32| #[trigger] more.to_set().contains(x) == fewer.to_set().insert(id).contains(
        x,
    ) by {
        if fewer.contains(x) {
            let k = fewer.index_of(x);
            assert(more[k] == x);
        }
        assert(more[fewer.len() as int] == id);
    }
    assert(more.to_set() =~= fewer.to_set().insert(id));
}

/// What giving a ticket back comes to, where refunds are open.
pub open spec fn pay_back_outcome(f: FrameView, ticket_id: u32) -> (Result<i128, Error>, FrameView)
    recommends
        f.store.raffle is Some,
{
    if !f.store.tickets.contains_key(ticket_id) {
        (Err(Error::TicketNotFound), f)
    } else {
        let raffle = f.store.raffle->0;
        let ticket = f.store.tickets[ticket_id];
        let g = f.act(ActionView::RequireAuth(ticket.owner));
        let payment = Payment {
            token: raffle.payment_token,
            from: f.ledger.contract,
            to: ticket.owner,
            amount: raffle.ticket_price,
        };
        if f.store.refunded.contains(ticket_id) {
            (Err(Error::PrizeAlreadyClaimed), g)
        } else {
            (
                Ok(raffle.ticket_price),
                g.with_store(
                    StoreView { refunded: f.store.refunded.insert(ticket_id), ..f.store },
                ).act(ActionView::TryTransfer(payment)).act(
                    refund_news(ticket, raffle.ticket_price, f.ledger.timestamp),
                ),
            )
        }
    }
}

/// Gives a ticket back, where refunds are open.
fn pay_back(frame: &mut Frame, ticket_id: u32, token: Address, price: i128) -> (r: Result<i128, Error>)
    requires
        old(frame).store.raffle is Some,
        token == old(frame).store.raffle->0.payment_token,
        price == old(frame).store.raffle->0.ticket_price,
    ensures
        (r, final(frame)@) == pay_back_outcome(old(frame)@, ticket_id),
{
    let ticket = match frame.store.tickets.get(&ticket_id) {
        Some(ticket) => *ticket,
        None => return Err(Error::TicketNotFound),
    };
    frame.act(Action::RequireAuth(ticket.owner));
    if frame.store.refunded.contains(&ticket_id) {
        return Err(Error::PrizeAlreadyClaimed);
    }
    frame.store.refunded.insert(ticket_id);
    let timestamp: u64 = frame.ledger.timestamp;
    let payment = Payment { token, from: frame.ledger.contract, to: ticket.owner, amount: price };
    frame.act(Action::TryTransfer(payment));
    frame.act(
        Action::Publish(
            Event::TicketRefunded {
                buyer: ticket.owner,
                ticket_number: ticket.ticket_number,
                amount: price,
                timestamp,
            },
        ),
    );
    Ok(price)
}

/// What giving tickets back together comes to, where their owner has confirmed it.
pub open spec fn batch_outcome(f: FrameView, owner: Address, ids: Seq<u32>) -> (
    Result<i128, Error>,
    FrameView,
) {
    if f.store.raffle is None {
        (Err(Error::NotInitialized), f)
    } else {
        let raffle = f.store.raffle->0;
        let refusal = batch_refusal(f.store.tickets, owner, ids);
        if raffle.status !is Cancelled && raffle.status !is Failed {
            (Err(Error::InvalidStatus), f)
        } else if ids.len() > MAX_BATCH_REFUND {
            (Err(Error::InvalidParameters), f)
        } else if refusal is Some {
            (Err(refusal->0), f)
        } else {
            (
                Ok((given_back(f.store.refunded, ids).len() * raffle.ticket_price) as i128),
                batch_refunded_frame(f, owner, ids),
            )
        }
    }
}

/// Gives tickets back together.
fn pay_batch_back(frame: &mut Frame, owner: Address, ticket_ids: &Vec<u32>) -> (r: Result<i128, Error>)
    requires
        old(frame)@.store.raffle is Some ==> old(frame)@.store.raffle->0.wf(),
    ensures
        (r, final(frame)@) == batch_outcome(old(frame)@, owner, ticket_ids@),
{
    let (status, token, price) = match &frame.store.raffle {
        Some(raffle) => (raffle.status, raffle.payment_token, raffle.ticket_price),
        None => return Err(Error::NotInitialized),
    };
    if status != RaffleStatus::Cancelled && status != RaffleStatus::Failed {
        return Err(Error::InvalidStatus);
    }
    if ticket_ids.len() > MAX_BATCH_REFUND {
        return Err(Error::InvalidParameters);
    }
    match check_batch(&frame.store.tickets, owner, ticket_ids) {
        Some(e) => return Err(e),
        None => {},
    }
    proof {
        lemma_batch_exists(frame@.store.tickets, owner, ticket_ids@);
    }
    let count: usize = give_back(frame, ticket_ids, price);
    assert(0 <= count * price <= 50_000_000_000_000_000_000_000) by (nonlinear_arith)
        requires
            0 <= count <= 50,
            0 <= price <= 1_000_000_000_000_000_000_000,
    ;
    let total: i128 = count as i128 * price;
    if total > 0 {
        let from = frame.ledger.contract;
        frame.act(Action::Transfer(Payment { token, from, to: owner, amount: total }));
    }
    Ok(total)
}

impl Contract {
    /// Pays a winner the prize of a tier, once the waiting time after the draw is
    /// over; each tier is paid once.
    pub fn claim_prize(frame: &mut Frame, winner: Address, tier_index: u32) -> (r: Result<i128, Error>)
        requires
            old(frame)@.store.raffle is Some ==> old(frame)@.store.raffle->0.wf(),
            !old(frame).store.reentrancy_guard && old(frame).store.raffle is Some
                && old(frame).store.raffle->0.status is Finalized
                ==> old(frame).store.raffle->0.finalized_at->0
                + old(frame).store.raffle->0.claim_lockup_seconds <= u64::MAX,
        ensures
            (r, final(frame)@) == claim_prize_outcome(old(frame)@, winner, tier_index),
    {
        frame.act(Action::RequireAuth(winner));
        let now: u64 = frame.ledger.timestamp;
        match acquire_guard(&mut frame.store) {
            Ok(_) => {},
            Err(e) => return Err(e),
        }
        let r = match check_claim(&frame.store, winner, tier_index, now) {
            Ok(amount) => {
                pay_claim(frame, winner, tier_index, amount);
                Ok(amount)
            },
            Err(e) => Err(e),
        };
        release_guard(&mut frame.store);
        r
    }

    /// Carries a scheduled cancellation out, once its time has come, and ends a draw in
    /// progress with it.
    pub fn execute_admin_cancel(frame: &mut Frame) -> (r: Result<(), Error>)
        ensures
            (r, final(frame)@) == execute_admin_cancel_outcome(old(frame)@),
    {
        let admin = match frame.store.admin {
            Some(admin) => admin,
            None => return Err(Error::NotAuthorized),
        };
        frame.act(Action::RequireAuth(admin));
        let cancel_at: u64 = match frame.store.pending_admin_cancel {
            Some(cancel_at) => cancel_at,
            None => return Err(Error::CancelNotScheduled),
        };
        let (creator, status, tickets_sold, prize_deposited) = match &frame.store.raffle {
            Some(raffle) => (
                raffle.creator,
                raffle.status,
                raffle.tickets_sold,
                raffle.prize_deposited,
            ),
            None => return Err(Error::NotInitialized),
        };
        if settled(status) {
            return Err(Error::InvalidStatus);
        }
        let now: u64 = frame.ledger.timestamp;
        if now < cancel_at {
            return Err(Error::CancelTimelockActive);
        }
        call_off(&mut frame.store);
        frame.store.pending_admin_cancel = None;
        frame.act(
            Action::Publish(
                Event::RaffleCancelled {
                    creator,
                    reason: CancelReason::AdminCancelled,
                    tickets_sold,
                    prize_refunded: prize_deposited,
                    timestamp: now,
                },
            ),
        );
        Ok(())
    }

    /// Gives the prize back to the creator of a raffle that was called off or has
    /// failed.
    pub fn refund_prize(frame: &mut Frame) -> (r: Result<(), Error>)
        ensures
            (r, final(frame)@) == refund_prize_outcome(old(frame)@),
    {
        let (creator, status, deposited, payment_token, prize_token, amount) =
            match &frame.store.raffle {
            Some(raffle) => (
                raffle.creator,
                raffle.status,
                raffle.prize_deposited,
                raffle.payment_token,
                raffle.prize_token,
                raffle.prize_amount,
            ),
            None => return Err(Error::NotInitialized),
        };
        frame.act(Action::RequireAuth(creator));
        if status != RaffleStatus::Cancelled && status != RaffleStatus::Failed {
            return Err(Error::InvalidStatus);
        }
        if !deposited {
            return Err(Error::PrizeNotDeposited);
        }
        frame.store.raffle_mut().prize_deposited = false;
        let timestamp: u64 = frame.ledger.timestamp;
        let payment = Payment {
            token: payment_token,
            from: frame.ledger.contract,
            to: creator,
            amount,
        };
        frame.act(Action::TryTransfer(payment));
        frame.act(
            Action::Publish(Event::PrizeRefunded { creator, amount, token: prize_token, timestamp }),
        );
        Ok(())
    }

    /// Gives the price of a ticket back to its owner, once.
    pub fn refund_ticket(frame: &mut Frame, ticket_id: u32) -> (r: Result<i128, Error>)
        ensures
            (r, final(frame)@) == refund_ticket_outcome(old(frame)@, ticket_id),
    {
        let (status, token, price) = match &frame.store.raffle {
            Some(raffle) => (raffle.status, raffle.payment_token, raffle.ticket_price),
            None => return Err(Error::NotInitialized),
        };
        if status != RaffleStatus::Cancelled && status != RaffleStatus::Failed
            && frame.store.pending_admin_cancel.is_none() {
            return Err(Error::InvalidStatus);
        }
        match acquire_guard(&mut frame.store) {
            Ok(_) => {},
            Err(e) => return Err(e),
        }
        let r = pay_back(frame, ticket_id, token, price);
        release_guard(&mut frame.store);
        r
    }

    /// Gives the price of several tickets back to their owner, in one payment. Tickets
    /// that were given back before, alone or together, are passed over.
    pub fn batch_refund_tickets(frame: &mut Frame, owner: Address, ticket_ids: &Vec<u32>) -> (r: Result<
        i128,
        Error,
    >)
        requires
            old(frame)@.store.raffle is Some ==> old(frame)@.store.raffle->0.wf(),
        ensures
            (r, final(frame)@) == batch_refund_tickets_outcome(old(frame)@, owner, ticket_ids@),
    {
        frame.act(Action::RequireAuth(owner));
        match acquire_guard(&mut frame.store) {
            Ok(_) => {},
            Err(e) => return Err(e),
        }
        let r = pay_batch_back(frame, owner, ticket_ids);
        release_guard(&mut frame.store);
        r
    }
}

} // verus!
