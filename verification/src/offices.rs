//! What the creator, the administrators and the factory can do to a raffle, and when:
//! each law says exactly when a call succeeds and what it then changes.

use crate::action::{ActionView, Event, Payment};
use crate::address::Address;
use crate::admin::{
    emergency_outcome, pause_outcome, pause_sales_outcome, rescue_outcome, set_admin_outcome,
    set_protocol_fee_bp_outcome, set_swap_deadline_outcome, update_oracle_address_outcome,
    wipe_outcome, withdraw_fees_outcome,
};
use crate::duties::{is_called_off, is_confirmed_by};
use crate::laws::{in_order, lemma_wiped};
use crate::promises::{lemma_payments_at, pays_once};
use crate::setup::{deposit_prize_outcome, init_outcome};
use crate::store::{DataKey, FrameView, StoreView};
use crate::types::{sum_of, RaffleConfigView, RaffleStatus, RaffleView};
use crate::{
    DEFAULT_CLAIM_LOCKUP_SECONDS, DEFAULT_SWAP_DEADLINE_SECONDS, EMERGENCY_WITHDRAW_DELAY_SECONDS,
    MAX_CLAIM_LOCKUP_SECONDS, MAX_DESCRIPTION_LENGTH, MAX_PRIZES, MAX_PRIZE_AMOUNT,
    MAX_PROTOCOL_FEE_BP, MAX_SWAP_DEADLINE_SECONDS, MAX_TICKETS_LIMIT, MIN_TICKET_PRICE,
};
use vstd::prelude::*;

verus! {

/// A raffle is created exactly if there is none yet and what its creator asks for is
/// within the limits. The host is asked whether its token is one.
pub proof fn raffles_are_created_within_limits(
    f: FrameView,
    factory: Address,
    admin: Address,
    creator: Address,
    c: RaffleConfigView,
)
    ensures
        ({
            let (r, after) = init_outcome(f, factory, admin, creator, c);
            &&& r is Ok <==> {
                &&& f.store.raffle is None
                &&& c.description.len() <= MAX_DESCRIPTION_LENGTH
                &&& if c.no_deadline {
                    c.end_time == 0
                } else {
                    c.end_time > f.ledger.timestamp
                }
                &&& 0 < c.max_tickets <= MAX_TICKETS_LIMIT
                &&& c.min_tickets <= c.max_tickets
                &&& 0 < c.max_tickets_per_tx <= c.max_tickets
                &&& MIN_TICKET_PRICE <= c.ticket_price <= c.prize_amount <= MAX_PRIZE_AMOUNT
                &&& 0 < c.prizes.len() <= MAX_PRIZES
                &&& sum_of(c.prizes) == 10000
                &&& c.protocol_fee_bp <= 10000
                &&& c.randomness_source is External <==> c.oracle_address is Some
                &&& c.oracle_address != Some(f.ledger.contract)
                &&& exists|i: int| 0 <= i < c.metadata_hash.len() && c.metadata_hash[i] != 0
                &&& c.claim_lockup_seconds <= MAX_CLAIM_LOCKUP_SECONDS
                &&& c.swap_deadline_seconds <= MAX_SWAP_DEADLINE_SECONDS
                &&& c.early_bird_ticket_percentage <= 100
                &&& c.early_bird_ticket_percentage > 0 ==> c.early_bird_discount_bp <= 10000
            }
            &&& r is Ok ==> after.actions[f.actions.len() as int] == ActionView::CheckToken(
                c.payment_token,
            )
        }),
{
}

/// A new raffle has the terms that its creator asked for, with the defaults for the
/// waiting times that were left open. It waits for its prize; no ticket is sold and
/// nothing else in the memory is changed.
pub proof fn raffles_have_the_terms_asked_for(
    f: FrameView,
    factory: Address,
    admin: Address,
    creator: Address,
    c: RaffleConfigView,
)
    requires
        init_outcome(f, factory, admin, creator, c).0 is Ok,
    ensures
        ({
            let after = init_outcome(f, factory, admin, creator, c).1;
            let raffle = after.store.raffle->0;
            &&& after.store.raffle is Some
            &&& after.store.factory == Some(factory) && after.store.admin == Some(admin)
            &&& after.store == (StoreView {
                raffle: after.store.raffle,
                factory: after.store.factory,
                admin: after.store.admin,
                ..f.store
            })
            &&& raffle.creator == creator
            &&& raffle.status is PendingPrize && !raffle.prize_deposited
            &&& raffle.tickets_sold == 0 && raffle.winners.len() == 0
            &&& raffle.claimed_winners.len() == 0 && raffle.finalized_at is None
            &&& !raffle.ticket_sales_paused
            &&& raffle.description == c.description && raffle.end_time == c.end_time
            &&& raffle.no_deadline == c.no_deadline && raffle.max_tickets == c.max_tickets
            &&& raffle.max_tickets_per_tx == c.max_tickets_per_tx
            &&& raffle.min_tickets == c.min_tickets && raffle.allow_multiple == c.allow_multiple
            &&& raffle.ticket_price == c.ticket_price && raffle.payment_token == c.payment_token
            &&& raffle.prize_token == c.payment_token && raffle.prize_amount == c.prize_amount
            &&& raffle.prizes == c.prizes && raffle.randomness_source == c.randomness_source
            &&& raffle.oracle_address == c.oracle_address
            &&& raffle.protocol_fee_bp == c.protocol_fee_bp
            &&& raffle.treasury_address == c.treasury_address
            &&& raffle.swap_router == c.swap_router && raffle.tikka_token == c.tikka_token
            &&& raffle.claim_lockup_seconds == if c.claim_lockup_seconds == 0 {
                DEFAULT_CLAIM_LOCKUP_SECONDS
            } else {
                c.claim_lockup_seconds
            }
            &&& raffle.swap_deadline_seconds == if c.swap_deadline_seconds == 0 {
                DEFAULT_SWAP_DEADLINE_SECONDS
            } else {
                c.swap_deadline_seconds
            }
            &&& raffle.early_bird_ticket_percentage == c.early_bird_ticket_percentage
            &&& raffle.early_bird_discount_bp == c.early_bird_discount_bp
            &&& after.actions.last() == (ActionView::PublishCreated {
                raffle_id: f.ledger.contract,
                creator,
                end_time: c.end_time,
                max_tickets: c.max_tickets,
                ticket_price: c.ticket_price,
                payment_token: c.payment_token,
                prize_amount: c.prize_amount,
                prizes: c.prizes,
                description: c.description,
                randomness_source: c.randomness_source,
                metadata_hash: c.metadata_hash,
            })
        }),
{
}

/// The creator pays the prize in, whole and in one payment, exactly as long as it is not
/// held and the contract is not paused; then tickets are on sale.
pub proof fn prizes_open_the_sale(f: FrameView)
    requires
        f.store.raffle is Some,
    ensures
        ({
            let raffle = f.store.raffle->0;
            let (r, after) = deposit_prize_outcome(f);
            &&& r is Ok <==> !f.store.paused && !raffle.prize_deposited
            &&& r is Ok ==> {
                &&& is_confirmed_by(f, after, raffle.creator)
                &&& pays_once(
                    f,
                    after,
                    Payment {
                        token: raffle.prize_token,
                        from: raffle.creator,
                        to: f.ledger.contract,
                        amount: raffle.prize_amount,
                    },
                )
                &&& after.store == f.store.with_raffle(
                    RaffleView {
                        prize_deposited: true,
                        status: RaffleStatus::Active,
                        ..raffle
                    },
                )
                &&& after.actions[f.actions.len() as int + 2] == ActionView::Publish(
                    Event::PrizeDeposited {
                        creator: raffle.creator,
                        amount: raffle.prize_amount,
                        token: raffle.payment_token,
                        timestamp: f.ledger.timestamp,
                    },
                )
                &&& after.actions.last() == ActionView::Publish(
                    Event::RaffleStatusChanged {
                        old_status: raffle.status,
                        new_status: RaffleStatus::Active,
                        timestamp: f.ledger.timestamp,
                    },
                )
            }
        }),
{
    let (r, after) = deposit_prize_outcome(f);
    let n = f.actions.len() as int;
    if r is Ok {
        lemma_payments_at(after.actions, n);
        lemma_payments_at(after.actions, n + 1);
        lemma_payments_at(after.actions, n + 2);
        lemma_payments_at(after.actions, n + 3);
        assert(after.actions.take(n) =~= f.actions);
        assert(after.actions.take(n + 4) =~= after.actions);
    }
}

/// Fees are paid out to whom the standing administrator names, in one payment, once the
/// raffle has been drawn, as far as they have come in and have not been paid out.
pub proof fn fees_are_paid_out(f: FrameView, recipient: Address, amount: i128)
    requires
        in_order(f.store),
        f.store.raffle is Some,
    ensures
        ({
            let raffle = f.store.raffle->0;
            let (r, after) = withdraw_fees_outcome(f, recipient, amount);
            &&& r is Ok <==> {
                &&& f.store.standing_admin is Some
                &&& raffle.status is Finalized || raffle.status is Claimed
                &&& 0 < amount <= f.store.accumulated_fees
            }
            &&& r is Ok ==> {
                &&& is_confirmed_by(f, after, f.store.standing_admin->0)
                &&& pays_once(
                    f,
                    after,
                    Payment {
                        token: raffle.payment_token,
                        from: f.ledger.contract,
                        to: recipient,
                        amount,
                    },
                )
                &&& after.store.accumulated_fees == f.store.accumulated_fees - amount
                &&& after.store == (StoreView {
                    accumulated_fees: after.store.accumulated_fees,
                    ..f.store
                })
                &&& after.actions.last() == ActionView::Publish(
                    Event::FeesWithdrawn {
                        recipient,
                        amount,
                        token: raffle.payment_token,
                        timestamp: f.ledger.timestamp,
                    },
                )
            }
        }),
{
    let (r, after) = withdraw_fees_outcome(f, recipient, amount);
    let n = f.actions.len() as int;
    if r is Ok {
        lemma_payments_at(after.actions, n);
        lemma_payments_at(after.actions, n + 1);
        lemma_payments_at(after.actions, n + 2);
        assert(after.actions.take(n) =~= f.actions);
        assert(after.actions.take(n + 3) =~= after.actions);
    }
}

/// Stray tokens are taken out for the administrator that was named at the creation, to
/// whom it says, exactly if they are not the raffle's tokens while its prize is held.
/// The memory stays as it is.
pub proof fn strays_are_rescued(f: FrameView, token: Address, recipient: Address, amount: i128)
    requires
        in_order(f.store),
        f.store.raffle is Some,
    ensures
        ({
            let raffle = f.store.raffle->0;
            let (r, after) = rescue_outcome(f, token, recipient, amount, true);
            &&& r is Ok <==> amount > 0 && !(raffle.prize_deposited && (token
                == raffle.payment_token || token == raffle.prize_token))
            &&& is_confirmed_by(f, after, f.store.admin->0)
            &&& after.store == f.store
            &&& r is Ok ==> pays_once(
                f,
                after,
                Payment { token, from: f.ledger.contract, to: recipient, amount },
            ) && after.actions.last() == ActionView::Publish(
                Event::TokensRescued {
                    rescued_by: f.store.admin->0,
                    token,
                    recipient,
                    amount,
                    timestamp: f.ledger.timestamp,
                },
            )
        }),
{
    let (r, after) = rescue_outcome(f, token, recipient, amount, true);
    let n = f.actions.len() as int;
    if r is Ok {
        lemma_payments_at(after.actions, n);
        lemma_payments_at(after.actions, n + 1);
        lemma_payments_at(after.actions, n + 2);
        assert(after.actions.take(n) =~= f.actions);
        assert(after.actions.take(n + 3) =~= after.actions);
    }
}

/// The prize can be taken back in an emergency, by the creator or the administrator that
/// was named at the creation, exactly if it is held and ninety days have passed: after
/// the draw of a raffle that was drawn, and for one that is being drawn after its end, or
/// without an end after its oracle was asked, at five seconds a ledger. It goes to the
/// creator in one payment, and the raffle is called off.
pub proof fn emergencies_return_the_prize(f: FrameView, caller: Address)
    requires
        in_order(f.store),
        f.store.raffle is Some,
    ensures
        ({
            let raffle = f.store.raffle->0;
            let (r, after) = emergency_outcome(f, caller, true);
            let now = f.ledger.timestamp;
            let asked_at = match f.store.randomness_request_ledger {
                Some(sequence) => sequence,
                None => 0,
            };
            &&& is_confirmed_by(f, after, caller)
            &&& r is Ok <==> {
                &&& raffle.prize_deposited
                &&& caller == raffle.creator || f.store.admin == Some(caller)
                &&& (raffle.status is Finalized && now >= raffle.finalized_at->0
                    + EMERGENCY_WITHDRAW_DELAY_SECONDS) || (raffle.status is Drawing
                    && !raffle.no_deadline && now >= raffle.end_time
                    + EMERGENCY_WITHDRAW_DELAY_SECONDS) || (raffle.status is Drawing
                    && raffle.no_deadline && (f.ledger.sequence - asked_at) * 5
                    >= EMERGENCY_WITHDRAW_DELAY_SECONDS)
            }
            &&& r is Ok ==> {
                &&& pays_once(
                    f,
                    after,
                    Payment {
                        token: raffle.prize_token,
                        from: f.ledger.contract,
                        to: raffle.creator,
                        amount: raffle.prize_amount,
                    },
                )
                &&& is_called_off(
                    f.store.with_raffle(RaffleView { prize_deposited: false, ..raffle }),
                    after.store,
                )
                &&& after.actions.last() == ActionView::Publish(
                    Event::EmergencyWithdrawn {
                        withdrawn_by: caller,
                        to: raffle.creator,
                        amount: raffle.prize_amount,
                        token: raffle.prize_token,
                        timestamp: now,
                    },
                )
            }
        }),
{
    let (r, after) = emergency_outcome(f, caller, true);
    let n = f.actions.len() as int;
    if r is Ok {
        lemma_payments_at(after.actions, n);
        lemma_payments_at(after.actions, n + 1);
        lemma_payments_at(after.actions, n + 2);
        assert(after.actions.take(n) =~= f.actions);
        assert(after.actions.take(n + 3) =~= after.actions);
    }
}

/// The factory can pause the contract and take the pause back at any time; nothing else
/// in the memory is changed.
pub proof fn factories_can_pause(f: FrameView, paused: bool)
    ensures
        ({
            let (r, after) = pause_outcome(f, paused);
            &&& r is Ok <==> f.store.factory is Some
            &&& r is Ok ==> {
                &&& is_confirmed_by(f, after, f.store.factory->0)
                &&& after.store == (StoreView { paused, ..f.store })
                &&& after.actions.len() == f.actions.len() + 2
                &&& after.actions.last() == ActionView::Publish(
                    if paused {
                        Event::ContractPaused {
                            paused_by: f.store.factory->0,
                            timestamp: f.ledger.timestamp,
                        }
                    } else {
                        Event::ContractUnpaused {
                            unpaused_by: f.store.factory->0,
                            timestamp: f.ledger.timestamp,
                        }
                    },
                )
            }
        }),
{
}

/// The creator and the administrator that was named at the creation can pause the sale
/// and resume it as long as the raffle is on sale; nothing else is changed.
pub proof fn managers_can_pause_the_sale(f: FrameView, caller: Address, paused: bool)
    requires
        in_order(f.store),
        f.store.raffle is Some,
    ensures
        ({
            let raffle = f.store.raffle->0;
            let (r, after) = pause_sales_outcome(f, caller, paused);
            &&& r is Ok <==> raffle.status is Active && (caller == raffle.creator || f.store.admin
                == Some(caller))
            &&& is_confirmed_by(f, after, caller)
            &&& r is Ok ==> {
                &&& after.store == f.store.with_raffle(
                    RaffleView { ticket_sales_paused: paused, ..raffle },
                )
                &&& after.actions.len() == f.actions.len() + 2
                &&& after.actions.last() == ActionView::Publish(
                    if paused {
                        Event::TicketSalesPaused {
                            paused_by: caller,
                            timestamp: f.ledger.timestamp,
                        }
                    } else {
                        Event::TicketSalesResumed {
                            resumed_by: caller,
                            timestamp: f.ledger.timestamp,
                        }
                    },
                )
            }
        }),
{
}

/// The standing administrator hands its office on to an address that the ledger knows
/// and that is not the contract; nothing else is changed.
pub proof fn the_office_is_handed_on(f: FrameView, new_admin: Address, exists_on_ledger: bool)
    ensures
        ({
            let (r, after) = set_admin_outcome(f, new_admin, exists_on_ledger);
            &&& r is Ok <==> f.store.standing_admin is Some && exists_on_ledger && new_admin
                != f.ledger.contract
            &&& f.store.standing_admin is Some ==> after.actions == f.actions.push(
                ActionView::RequireAuth(f.store.standing_admin->0),
            )
            &&& r is Ok ==> after.store == (StoreView {
                standing_admin: Some(new_admin),
                ..f.store
            })
        }),
{
}

/// The standing administrator can give a raffle another oracle, if it has one, until it
/// has been drawn, claimed or called off.
pub proof fn oracles_can_be_replaced(f: FrameView, new_oracle: Address)
    requires
        f.store.raffle is Some,
    ensures
        ({
            let raffle = f.store.raffle->0;
            let (r, after) = update_oracle_address_outcome(f, new_oracle);
            &&& r is Ok <==> {
                &&& f.store.standing_admin is Some
                &&& raffle.randomness_source is External
                &&& new_oracle != f.ledger.contract
                &&& raffle.status is PendingPrize || raffle.status is Active || raffle.status is Drawing
                    || raffle.status is Failed
            }
            &&& r is Ok ==> {
                &&& is_confirmed_by(f, after, f.store.standing_admin->0)
                &&& after.store == f.store.with_raffle(
                    RaffleView { oracle_address: Some(new_oracle), ..raffle },
                )
                &&& after.actions.len() == f.actions.len() + 2
                &&& after.actions.last() == ActionView::Publish(
                    Event::OracleAddressUpdated {
                        old_oracle: raffle.oracle_address,
                        new_oracle,
                        updated_by: f.store.standing_admin->0,
                        timestamp: f.ledger.timestamp,
                    },
                )
            }
        }),
{
}

/// The standing administrator can set the protocol's fee and the time that a swap may
/// take, within their limits, as long as no ticket is sold: whoever has bought a ticket
/// can rely on both.
pub proof fn settings_change_before_the_sale(f: FrameView, fee_bp: u32, deadline_seconds: u64)
    requires
        f.store.raffle is Some,
    ensures
        ({
            let raffle = f.store.raffle->0;
            let (r, after) = set_protocol_fee_bp_outcome(f, fee_bp);
            &&& r is Ok <==> f.store.standing_admin is Some && fee_bp <= MAX_PROTOCOL_FEE_BP
                && raffle.tickets_sold == 0
            &&& r is Ok ==> {
                &&& is_confirmed_by(f, after, f.store.standing_admin->0)
                &&& after.store == f.store.with_raffle(
                    RaffleView { protocol_fee_bp: fee_bp, ..raffle },
                )
                &&& after.actions.len() == f.actions.len() + 2
                &&& after.actions.last() == ActionView::Publish(
                    Event::ProtocolFeeUpdated {
                        old_fee_bp: raffle.protocol_fee_bp,
                        new_fee_bp: fee_bp,
                        updated_by: f.store.standing_admin->0,
                        timestamp: f.ledger.timestamp,
                    },
                )
            }
        }),
        ({
            let raffle = f.store.raffle->0;
            let (r, after) = set_swap_deadline_outcome(f, deadline_seconds);
            &&& r is Ok <==> f.store.standing_admin is Some && deadline_seconds
                <= MAX_SWAP_DEADLINE_SECONDS && raffle.tickets_sold == 0
            &&& r is Ok ==> {
                &&& is_confirmed_by(f, after, f.store.standing_admin->0)
                &&& after.store == f.store.with_raffle(
                    RaffleView { swap_deadline_seconds: deadline_seconds, ..raffle },
                )
                &&& after.actions.len() == f.actions.len() + 2
                &&& after.actions.last() == ActionView::Publish(
                    Event::SwapDeadlineUpdated {
                        old_deadline_seconds: raffle.swap_deadline_seconds,
                        new_deadline_seconds: deadline_seconds,
                        updated_by: f.store.standing_admin->0,
                        timestamp: f.ledger.timestamp,
                    },
                )
            }
        }),
{
}

/// The factory can wipe a raffle out exactly once it is called off, has failed or has
/// been claimed whole. No payment is made, and the memory is that of a new contract.
pub proof fn ended_raffles_are_wiped_out(f: FrameView)
    requires
        in_order(f.store),
        f.store.raffle is Some,
    ensures
        ({
            let raffle = f.store.raffle->0;
            let (r, after) = wipe_outcome(f, true);
            &&& r is Ok <==> (raffle.status is Cancelled || raffle.status is Failed
                || raffle.status is Claimed)
            &&& after.actions == f.actions.push(ActionView::RequireAuth(f.store.factory->0))
            &&& r is Ok ==> after.store == StoreView::blank()
        }),
{
    lemma_wiped(f.store);
}

/// The other way of wiping a raffle out succeeds in the same cases, and leaves the index
/// of owners and a scheduled cancellation behind.
pub proof fn indices_can_be_left_behind(f: FrameView)
    requires
        in_order(f.store),
        f.store.raffle is Some,
    ensures
        wipe_outcome(f, false).0 == wipe_outcome(f, true).0,
        wipe_outcome(f, false).0 is Ok ==> wipe_outcome(f, false).1.store == (StoreView {
            owner_tickets: f.store.owner_tickets,
            pending_admin_cancel: f.store.pending_admin_cancel,
            ..StoreView::blank()
        }),
{
    lemma_wiped(f.store);
}

/// What stands under the keys of a memory that is in order: a raffle with its factory and
/// administrator once it is created, a ticket under each number that was sold, a count and
/// a list for everybody who has bought one, a record after a draw, and the lock and a
/// request during one.
pub proof fn keys_tell_what_is_there(store: StoreView, id: u32, owner: Address)
    requires
        in_order(store),
        store.raffle is Some,
    ensures
        store.holds(DataKey::Raffle) && store.holds(DataKey::Factory) && store.holds(DataKey::Admin),
        store.holds(DataKey::Ticket(id)) <==> 1 <= id <= store.raffle->0.tickets_sold,
        store.holds(DataKey::TicketRefunded(id)) <==> store.refunded.contains(id),
        store.holds(DataKey::CommitEntry(id)) <==> store.commit_entries.contains_key(id),
        store.holds(DataKey::TicketCount(owner)) <==> store.count_of(owner) > 0,
        store.holds(DataKey::OwnerTickets(owner)) <== store.count_of(owner) > 0,
        store.holds(DataKey::TicketBuyers) <==> store.ticket_buyers.len() > 0,
        store.holds(DataKey::RandomnessSeed) <==> store.randomness_seed is Some,
        store.raffle->0.status is Finalized || store.raffle->0.status is Claimed ==> store.holds(
            DataKey::RandomnessSeed,
        ),
        store.holds(DataKey::DrawingLock) <==> store.raffle->0.status is Drawing,
        store.holds(DataKey::RandomnessRequested) <==> store.randomness_requested,
        store.holds(DataKey::RandomnessRequestLedger) <==> store.randomness_request_ledger is Some,
        store.holds(DataKey::RandomnessRequestId) <==> store.randomness_request_id is Some,
        store.holds(DataKey::AccumulatedFees) <==> store.accumulated_fees > 0,
        store.holds(DataKey::PendingAdminCancel) <==> store.pending_admin_cancel is Some,
        store.holds(DataKey::Paused) <==> store.paused,
        !store.holds(DataKey::ReentrancyGuard) && !store.holds(DataKey::FinishTime),
{
    assert(store.count_of(owner) == store.tickets_of(owner).len());
}

} // verus!
