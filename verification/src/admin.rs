//! What the factory, the administrators and the creator can do to a raffle.

use crate::action::{Action, ActionView, Event, Payment};
use crate::address::Address;
use crate::draw::{call_off, called_off, cancel_news};
use crate::error::Error;
use crate::helpers::require_admin;
use crate::store::{lists_in, Frame, FrameView, Ledger, Store, StoreView};
use crate::types::{
    CancelReason, CommitRevealEntry, RaffleStatus, RaffleView, RandomnessSource, Ticket,
};
use crate::{
    ADMIN_CANCEL_DELAY_SECONDS, EMERGENCY_WITHDRAW_DELAY_SECONDS, MAX_PROTOCOL_FEE_BP,
    MAX_SWAP_DEADLINE_SECONDS,
};
use std::collections::HashMap;
use std::collections::HashSet;
use vstd::prelude::*;

verus! {

broadcast use vstd::std_specs::hash::group_hash_axioms;

/// What [`set_admin`] comes to.
pub open spec fn set_admin_outcome(f: FrameView, new_admin: Address, exists_on_ledger: bool) -> (
    Result<(), Error>,
    FrameView,
) {
    match f.store.standing_admin {
        None => (Err(Error::NotAuthorized), f),
        Some(admin) => {
            let g = f.act(ActionView::RequireAuth(admin));
            if !exists_on_ledger || new_admin == f.ledger.contract {
                (Err(Error::InvalidAdminAddress), g)
            } else {
                (
                    Ok(()),
                    g.with_store(StoreView { standing_admin: Some(new_admin), ..f.store }),
                )
            }
        },
    }
}

/// Names a new standing administrator; `exists_on_ledger` says whether the ledger
/// knows its address.
pub fn set_admin(frame: &mut Frame, new_admin: Address, exists_on_ledger: bool) -> (r: Result<(), Error>)
    ensures
        (r, final(frame)@) == set_admin_outcome(old(frame)@, new_admin, exists_on_ledger),
{
    match require_admin(frame) {
        Ok(_) => {},
        Err(e) => return Err(e),
    }
    if !exists_on_ledger || new_admin == frame.ledger.contract {
        return Err(Error::InvalidAdminAddress);
    }
    frame.store.standing_admin = Some(new_admin);
    Ok(())
}

/// Whether nothing about a raffle can be changed any more.
pub open spec fn is_settled(status: RaffleStatus) -> bool {
    status is Finalized || status is Claimed || status is Cancelled
}

/// Finds whether nothing about a raffle can be changed any more.
pub fn settled(status: RaffleStatus) -> (r: bool)
    ensures
        r == is_settled(status),
{
    status == RaffleStatus::Finalized || status == RaffleStatus::Claimed || status
        == RaffleStatus::Cancelled
}

/// What [`update_oracle_address`] comes to.
pub open spec fn update_oracle_address_outcome(f: FrameView, new_oracle: Address) -> (
    Result<(), Error>,
    FrameView,
) {
    match f.store.standing_admin {
        None => (Err(Error::NotAuthorized), f),
        Some(admin) => {
            let g = f.act(ActionView::RequireAuth(admin));
            match f.store.raffle {
                None => (Err(Error::NotInitialized), g),
                Some(raffle) => if raffle.randomness_source !is External || new_oracle
                    == f.ledger.contract {
                    (Err(Error::InvalidParameters), g)
                } else if is_settled(raffle.status) {
                    (Err(Error::InvalidStatus), g)
                } else {
                    (
                        Ok(()),
                        g.with_store(
                            f.store.with_raffle(
                                RaffleView { oracle_address: Some(new_oracle), ..raffle },
                            ),
                        ).act(
                            ActionView::Publish(
                                Event::OracleAddressUpdated {
                                    old_oracle: raffle.oracle_address,
                                    new_oracle,
                                    updated_by: admin,
                                    timestamp: f.ledger.timestamp,
                                },
                            ),
                        ),
                    )
                },
            }
        },
    }
}

/// Gives a raffle another oracle.
pub fn update_oracle_address(frame: &mut Frame, new_oracle: Address) -> (r: Result<(), Error>)
    ensures
        (r, final(frame)@) == update_oracle_address_outcome(old(frame)@, new_oracle),
{
    let admin = match require_admin(frame) {
        Ok(admin) => admin,
        Err(e) => return Err(e),
    };
    let (source, status, old_oracle) = match &frame.store.raffle {
        Some(raffle) => (raffle.randomness_source, raffle.status, raffle.oracle_address),
        None => return Err(Error::NotInitialized),
    };
    if source != RandomnessSource::External {
        return Err(Error::InvalidParameters);
    }
    if new_oracle == frame.ledger.contract {
        return Err(Error::InvalidParameters);
    }
    if settled(status) {
        return Err(Error::InvalidStatus);
    }
    frame.store.raffle_mut().oracle_address = Some(new_oracle);
    let timestamp: u64 = frame.ledger.timestamp;
    frame.act(
        Action::Publish(
            Event::OracleAddressUpdated { old_oracle, new_oracle, updated_by: admin, timestamp },
        ),
    );
    Ok(())
}

/// What [`set_protocol_fee_bp`] comes to.
pub open spec fn set_protocol_fee_bp_outcome(f: FrameView, new_fee_bp: u32) -> (
    Result<(), Error>,
    FrameView,
) {
    match f.store.standing_admin {
        None => (Err(Error::NotAuthorized), f),
        Some(admin) => {
            let g = f.act(ActionView::RequireAuth(admin));
            if new_fee_bp > MAX_PROTOCOL_FEE_BP {
                (Err(Error::InvalidParameters), g)
            } else {
                match f.store.raffle {
                    None => (Err(Error::NotInitialized), g),
                    Some(raffle) => if raffle.tickets_sold > 0 {
                        (Err(Error::InvalidStatus), g)
                    } else {
                        (
                            Ok(()),
                            g.with_store(
                                f.store.with_raffle(
                                    RaffleView { protocol_fee_bp: new_fee_bp, ..raffle },
                                ),
                            ).act(
                                ActionView::Publish(
                                    Event::ProtocolFeeUpdated {
                                        old_fee_bp: raffle.protocol_fee_bp,
                                        new_fee_bp,
                                        updated_by: admin,
                                        timestamp: f.ledger.timestamp,
                                    },
                                ),
                            ),
                        )
                    },
                }
            }
        },
    }
}

/// Sets the protocol's fee, as long as no ticket is sold.
pub fn set_protocol_fee_bp(frame: &mut Frame, new_fee_bp: u32) -> (r: Result<(), Error>)
    ensures
        (r, final(frame)@) == set_protocol_fee_bp_outcome(old(frame)@, new_fee_bp),
{
    let admin = match require_admin(frame) {
        Ok(admin) => admin,
        Err(e) => return Err(e),
    };
    if new_fee_bp > MAX_PROTOCOL_FEE_BP {
        return Err(Error::InvalidParameters);
    }
    let (tickets_sold, old_fee_bp) = match &frame.store.raffle {
        Some(raffle) => (raffle.tickets_sold, raffle.protocol_fee_bp),
        None => return Err(Error::NotInitialized),
    };
    if tickets_sold > 0 {
        return Err(Error::InvalidStatus);
    }
    frame.store.raffle_mut().protocol_fee_bp = new_fee_bp;
    let timestamp: u64 = frame.ledger.timestamp;
    frame.act(
        Action::Publish(
            Event::ProtocolFeeUpdated { old_fee_bp, new_fee_bp, updated_by: admin, timestamp },
        ),
    );
    Ok(())
}

/// What [`set_swap_deadline`] comes to.
pub open spec fn set_swap_deadline_outcome(f: FrameView, new_deadline_seconds: u64) -> (
    Result<(), Error>,
    FrameView,
) {
    match f.store.standing_admin {
        None => (Err(Error::NotAuthorized), f),
        Some(admin) => {
            let g = f.act(ActionView::RequireAuth(admin));
            if new_deadline_seconds > MAX_SWAP_DEADLINE_SECONDS {
                (Err(Error::InvalidParameters), g)
            } else {
                match f.store.raffle {
                    None => (Err(Error::NotInitialized), g),
                    Some(raffle) => if raffle.tickets_sold > 0 {
                        (Err(Error::InvalidStatus), g)
                    } else {
                        (
                            Ok(()),
                            g.with_store(
                                f.store.with_raffle(
                                    RaffleView {
                                        swap_deadline_seconds: new_deadline_seconds,
                                        ..raffle
                                    },
                                ),
                            ).act(
                                ActionView::Publish(
                                    Event::SwapDeadlineUpdated {
                                        old_deadline_seconds: raffle.swap_deadline_seconds,
                                        new_deadline_seconds,
                                        updated_by: admin,
                                        timestamp: f.ledger.timestamp,
                                    },
                                ),
                            ),
                        )
                    },
                }
            }
        },
    }
}

/// Sets the time that a swap may take, as long as no ticket is sold.
pub fn set_swap_deadline(frame: &mut Frame, new_deadline_seconds: u64) -> (r: Result<(), Error>)
    ensures
        (r, final(frame)@) == set_swap_deadline_outcome(old(frame)@, new_deadline_seconds),
{
    let admin = match require_admin(frame) {
        Ok(admin) => admin,
        Err(e) => return Err(e),
    };
    if new_deadline_seconds > MAX_SWAP_DEADLINE_SECONDS {
        return Err(Error::InvalidParameters);
    }
    let (tickets_sold, old_deadline_seconds) = match &frame.store.raffle {
        Some(raffle) => (raffle.tickets_sold, raffle.swap_deadline_seconds),
        None => return Err(Error::NotInitialized),
    };
    if tickets_sold > 0 {
        return Err(Error::InvalidStatus);
    }
    frame.store.raffle_mut().swap_deadline_seconds = new_deadline_seconds;
    let timestamp: u64 = frame.ledger.timestamp;
    frame.act(
        Action::Publish(
            Event::SwapDeadlineUpdated {
                old_deadline_seconds,
                new_deadline_seconds,
                updated_by: admin,
                timestamp,
            },
        ),
    );
    Ok(())
}

/// Who has to confirm that a raffle is called off: the administrator that was named
/// at the creation where the administrator is the reason, else the creator.
pub open spec fn canceller(store: StoreView, reason: CancelReason) -> Option<Address>
    recommends
        store.raffle is Some,
{
    if reason is AdminCancelled {
        store.admin
    } else {
        Some(store.raffle->0.creator)
    }
}

/// Why a raffle cannot be called off for a reason, if it cannot.
pub open spec fn cancel_refusal(store: StoreView, reason: CancelReason) -> Option<Error> {
    if store.raffle is None {
        Some(Error::NotInitialized)
    } else if canceller(store, reason) is None {
        Some(Error::NotAuthorized)
    } else if is_settled(store.raffle->0.status) {
        Some(Error::InvalidStatus)
    } else {
        None
    }
}

/// When a cancellation by the administrator that is scheduled at a time takes effect:
/// after the delay, or at the last moment that a timestamp can hold if that is sooner.
pub open spec fn cancel_due(timestamp: u64) -> u64 {
    if timestamp + ADMIN_CANCEL_DELAY_SECONDS <= u64::MAX {
        (timestamp + ADMIN_CANCEL_DELAY_SECONDS) as u64
    } else {
        u64::MAX
    }
}

/// What [`cancel_raffle`] comes to: the administrator schedules a cancellation, and
/// anybody else calls the raffle off at once.
pub open spec fn cancel_outcome(f: FrameView, reason: CancelReason) -> (Result<(), Error>, FrameView) {
    let refusal = cancel_refusal(f.store, reason);
    let g = if f.store.raffle is None || canceller(f.store, reason) is None {
        f
    } else {
        f.act(ActionView::RequireAuth(canceller(f.store, reason)->0))
    };
    if refusal is Some {
        (Err(refusal->0), g)
    } else if reason is AdminCancelled {
        (
            Ok(()),
            g.with_store(
                StoreView {
                    pending_admin_cancel: Some(cancel_due(f.ledger.timestamp)),
                    ..f.store
                },
            ),
        )
    } else {
        (Ok(()), g.with_store(called_off(f.store)).act(cancel_news(f, reason)))
    }
}

/// Calls a raffle off, and a draw in progress with it. A cancellation by the
/// administrator is only scheduled, for the day after.
pub fn cancel_raffle(frame: &mut Frame, reason: CancelReason) -> (r: Result<(), Error>)
    ensures
        (r, final(frame)@) == cancel_outcome(old(frame)@, reason),
{
    let (creator, status, tickets_sold, prize_deposited) = match &frame.store.raffle {
        Some(raffle) => (
            raffle.creator,
            raffle.status,
            raffle.tickets_sold,
            raffle.prize_deposited,
        ),
        None => return Err(Error::NotInitialized),
    };
    match reason {
        CancelReason::AdminCancelled => match frame.store.admin {
            Some(admin) => frame.act(Action::RequireAuth(admin)),
            None => return Err(Error::NotAuthorized),
        },
        _ => frame.act(Action::RequireAuth(creator)),
    }
    if settled(status) {
        return Err(Error::InvalidStatus);
    }
    let timestamp: u64 = frame.ledger.timestamp;
    if reason == CancelReason::AdminCancelled {
        frame.store.pending_admin_cancel = Some(
            timestamp.saturating_add(ADMIN_CANCEL_DELAY_SECONDS),
        );
        return Ok(());
    }
    call_off(&mut frame.store);
    frame.act(
        Action::Publish(
            Event::RaffleCancelled {
                creator,
                reason,
                tickets_sold,
                prize_refunded: prize_deposited,
                timestamp,
            },
        ),
    );
    Ok(())
}

/// What pausing the contract, or taking the pause back, comes to.
pub open spec fn pause_outcome(f: FrameView, paused: bool) -> (Result<(), Error>, FrameView) {
    match f.store.factory {
        None => (Err(Error::NotAuthorized), f),
        Some(factory) => (
            Ok(()),
            f.act(ActionView::RequireAuth(factory)).with_store(
                StoreView { paused, ..f.store },
            ).act(
                ActionView::Publish(
                    if paused {
                        Event::ContractPaused {
                            paused_by: factory,
                            timestamp: f.ledger.timestamp,
                        }
                    } else {
                        Event::ContractUnpaused {
                            unpaused_by: factory,
                            timestamp: f.ledger.timestamp,
                        }
                    },
                ),
            ),
        ),
    }
}

/// Pauses the contract.
pub fn pause(frame: &mut Frame) -> (r: Result<(), Error>)
    ensures
        (r, final(frame)@) == pause_outcome(old(frame)@, true),
{
    let factory = match frame.store.factory {
        Some(factory) => factory,
        None => return Err(Error::NotAuthorized),
    };
    frame.act(Action::RequireAuth(factory));
    frame.store.paused = true;
    let timestamp: u64 = frame.ledger.timestamp;
    frame.act(Action::Publish(Event::ContractPaused { paused_by: factory, timestamp }));
    Ok(())
}

/// Takes a pause of the contract back.
pub fn unpause(frame: &mut Frame) -> (r: Result<(), Error>)
    ensures
        (r, final(frame)@) == pause_outcome(old(frame)@, false),
{
    let factory = match frame.store.factory {
        Some(factory) => factory,
        None => return Err(Error::NotAuthorized),
    };
    frame.act(Action::RequireAuth(factory));
    frame.store.paused = false;
    let timestamp: u64 = frame.ledger.timestamp;
    frame.act(Action::Publish(Event::ContractUnpaused { unpaused_by: factory, timestamp }));
    Ok(())
}

/// Whether somebody is the creator of the raffle or the administrator that was named
/// at its creation.
pub open spec fn is_manager(store: StoreView, caller: Address) -> bool
    recommends
        store.raffle is Some,
{
    store.admin is Some && (caller == store.raffle->0.creator || Some(caller) == store.admin)
}

/// Finds whether somebody is the creator of the raffle or the administrator that was
/// named at its creation.
pub fn manages(store: &Store, creator: Address, caller: Address) -> (r: bool)
    requires
        store.raffle is Some,
        creator == store.raffle->0.creator,
    ensures
        r == is_manager(store@, caller),
{
    match store.admin {
        Some(admin) => caller == creator || caller == admin,
        None => false,
    }
}

/// What pausing the sale of tickets, or taking the pause back, comes to.
pub open spec fn pause_sales_outcome(f: FrameView, caller: Address, paused: bool) -> (
    Result<(), Error>,
    FrameView,
) {
    let g = f.act(ActionView::RequireAuth(caller));
    match f.store.raffle {
        None => (Err(Error::NotInitialized), g),
        Some(raffle) => if !is_manager(f.store, caller) {
            (Err(Error::NotAuthorized), g)
        } else if raffle.status !is Active {
            (Err(Error::InvalidStatus), g)
        } else {
            (
                Ok(()),
                g.with_store(
                    f.store.with_raffle(RaffleView { ticket_sales_paused: paused, ..raffle }),
                ).act(
                    ActionView::Publish(
                        if paused {
                            Event::TicketSalesPaused {
                                paused_by: caller,
                                timestamp: f.ledger.timestamp,
                            }
                        } else {
                            Event::TicketSalesResumed {
                                resumed_by: caller,
                                timestamp: f.ledger.timestamp,
                            }
                        },
                    ),
                ),
            )
        },
    }
}

/// Sets whether the sale of tickets is paused.
fn set_sales_paused(frame: &mut Frame, caller: Address, paused: bool) -> (r: Result<(), Error>)
    ensures
        (r, final(frame)@) == pause_sales_outcome(old(frame)@, caller, paused),
{
    frame.act(Action::RequireAuth(caller));
    let (creator, status) = match &frame.store.raffle {
        Some(raffle) => (raffle.creator, raffle.status),
        None => return Err(Error::NotInitialized),
    };
    if !manages(&frame.store, creator, caller) {
        return Err(Error::NotAuthorized);
    }
    if status != RaffleStatus::Active {
        return Err(Error::InvalidStatus);
    }
    frame.store.raffle_mut().ticket_sales_paused = paused;
    let timestamp: u64 = frame.ledger.timestamp;
    if paused {
        frame.act(Action::Publish(Event::TicketSalesPaused { paused_by: caller, timestamp }));
    } else {
        frame.act(Action::Publish(Event::TicketSalesResumed { resumed_by: caller, timestamp }));
    }
    Ok(())
}

/// Pauses the sale of tickets.
pub fn pause_ticket_sales(frame: &mut Frame, caller: Address) -> (r: Result<(), Error>)
    ensures
        (r, final(frame)@) == pause_sales_outcome(old(frame)@, caller, true),
{
    set_sales_paused(frame, caller, true)
}

/// Takes a pause of the sale of tickets back.
pub fn resume_ticket_sales(frame: &mut Frame, caller: Address) -> (r: Result<(), Error>)
    ensures
        (r, final(frame)@) == pause_sales_outcome(old(frame)@, caller, false),
{
    set_sales_paused(frame, caller, false)
}

/// What [`withdraw_fees`] comes to.
pub open spec fn withdraw_fees_outcome(f: FrameView, recipient: Address, amount: i128) -> (
    Result<(), Error>,
    FrameView,
) {
    match f.store.standing_admin {
        None => (Err(Error::NotAuthorized), f),
        Some(admin) => {
            let g = f.act(ActionView::RequireAuth(admin));
            match f.store.raffle {
                None => (Err(Error::NotInitialized), g),
                Some(raffle) => if raffle.status !is Finalized && raffle.status !is Claimed {
                    (Err(Error::InvalidStatus), g)
                } else if amount <= 0 {
                    (Err(Error::InvalidParameters), g)
                } else if amount > f.store.accumulated_fees {
                    (Err(Error::InsufficientAccumulatedFees), g)
                } else {
                    (
                        Ok(()),
                        g.with_store(
                            StoreView {
                                accumulated_fees: (f.store.accumulated_fees - amount) as i128,
                                ..f.store
                            },
                        ).act(
                            ActionView::Transfer(
                                Payment {
                                    token: raffle.payment_token,
                                    from: f.ledger.contract,
                                    to: recipient,
                                    amount,
                                },
                            ),
                        ).act(
                            ActionView::Publish(
                                Event::FeesWithdrawn {
                                    recipient,
                                    amount,
                                    token: raffle.payment_token,
                                    timestamp: f.ledger.timestamp,
                                },
                            ),
                        ),
                    )
                },
            }
        },
    }
}

/// Pays fees out, once the winners are known.
pub fn withdraw_fees(frame: &mut Frame, recipient: Address, amount: i128) -> (r: Result<(), Error>)
    ensures
        (r, final(frame)@) == withdraw_fees_outcome(old(frame)@, recipient, amount),
{
    match require_admin(frame) {
        Ok(_) => {},
        Err(e) => return Err(e),
    }
    let (status, token) = match &frame.store.raffle {
        Some(raffle) => (raffle.status, raffle.payment_token),
        None => return Err(Error::NotInitialized),
    };
    if status != RaffleStatus::Finalized && status != RaffleStatus::Claimed {
        return Err(Error::InvalidStatus);
    }
    if amount <= 0 {
        return Err(Error::InvalidParameters);
    }
    if amount > frame.store.accumulated_fees {
        return Err(Error::InsufficientAccumulatedFees);
    }
    frame.store.accumulated_fees = frame.store.accumulated_fees - amount;
    let from = frame.ledger.contract;
    let timestamp: u64 = frame.ledger.timestamp;
    frame.act(Action::Transfer(Payment { token, from, to: recipient, amount }));
    frame.act(Action::Publish(Event::FeesWithdrawn { recipient, amount, token, timestamp }));
    Ok(())
}

/// Whether a token must stay in the contract for the sake of the raffle; `both` says
/// whether the token of the prize is kept like that of the tickets.
pub open spec fn is_in_escrow(store: StoreView, token: Address, both: bool) -> bool {
    match store.raffle {
        Some(raffle) => raffle.prize_deposited && (token == raffle.payment_token || (both && token
            == raffle.prize_token)),
        None => false,
    }
}

/// What taking stray tokens out comes to.
pub open spec fn rescue_outcome(
    f: FrameView,
    token: Address,
    recipient: Address,
    amount: i128,
    both: bool,
) -> (Result<(), Error>, FrameView) {
    match f.store.admin {
        None => (Err(Error::NotAuthorized), f),
        Some(admin) => {
            let g = f.act(ActionView::RequireAuth(admin));
            if amount <= 0 || is_in_escrow(f.store, token, both) {
                (Err(Error::InvalidParameters), g)
            } else {
                (
                    Ok(()),
                    g.act(
                        ActionView::TryTransfer(
                            Payment { token, from: f.ledger.contract, to: recipient, amount },
                        ),
                    ).act(
                        ActionView::Publish(
                            Event::TokensRescued {
                                rescued_by: admin,
                                token,
                                recipient,
                                amount,
                                timestamp: f.ledger.timestamp,
                            },
                        ),
                    ),
                )
            }
        },
    }
}

/// Takes stray tokens out, but not those that a raffle holds in escrow.
pub fn rescue(frame: &mut Frame, token: Address, recipient: Address, amount: i128, both: bool) -> (r: Result<
    (),
    Error,
>)
    ensures
        (r, final(frame)@) == rescue_outcome(old(frame)@, token, recipient, amount, both),
{
    let admin = match frame.store.admin {
        Some(admin) => admin,
        None => return Err(Error::NotAuthorized),
    };
    frame.act(Action::RequireAuth(admin));
    if amount <= 0 {
        return Err(Error::InvalidParameters);
    }
    let in_escrow: bool = match &frame.store.raffle {
        Some(raffle) => raffle.prize_deposited && (token == raffle.payment_token || (both && token
            == raffle.prize_token)),
        None => false,
    };
    if in_escrow {
        return Err(Error::InvalidParameters);
    }
    let from = frame.ledger.contract;
    let timestamp: u64 = frame.ledger.timestamp;
    frame.act(Action::TryTransfer(Payment { token, from, to: recipient, amount }));
    frame.act(
        Action::Publish(
            Event::TokensRescued { rescued_by: admin, token, recipient, amount, timestamp },
        ),
    );
    Ok(())
}

/// Takes stray tokens out, but not the tokens of the tickets while a prize is held.
pub fn rescue_tokens(frame: &mut Frame, token: Address, recipient: Address, amount: i128) -> (r: Result<
    (),
    Error,
>)
    ensures
        (r, final(frame)@) == rescue_outcome(old(frame)@, token, recipient, amount, false),
{
    rescue(frame, token, recipient, amount, false)
}

/// The numbers of the tickets that were sold.
pub open spec fn sold_ids(tickets_sold: u32) -> Set<u32> {
    Set::new(|id: u32| 1 <= id <= tickets_sold)
}

/// A memory after its raffle has been wiped out; `indexed` says whether the index of
/// owners and a scheduled cancellation go too.
pub open spec fn wiped(store: StoreView, indexed: bool) -> StoreView
    recommends
        store.raffle is Some,
{
    let ids = sold_ids(store.raffle->0.tickets_sold);
    let buyers = store.ticket_buyers.to_set();
    StoreView {
        raffle: None,
        factory: None,
        reentrancy_guard: false,
        paused: false,
        admin: None,
        randomness_requested: false,
        randomness_request_ledger: None,
        randomness_request_id: None,
        accumulated_fees: 0,
        drawing_lock: false,
        pending_admin_cancel: if indexed {
            None
        } else {
            store.pending_admin_cancel
        },
        tickets: store.tickets.remove_keys(ids),
        refunded: store.refunded.difference(ids),
        commit_entries: store.commit_entries.remove_keys(ids),
        ticket_counts: store.ticket_counts.remove_keys(buyers),
        owner_tickets: if indexed {
            store.owner_tickets.remove_keys(buyers)
        } else {
            store.owner_tickets
        },
        ticket_buyers: Seq::empty(),
        randomness_seed: None,
        standing_admin: None,
    }
}

/// What wiping a raffle out comes to.
pub open spec fn wipe_outcome(f: FrameView, indexed: bool) -> (Result<(), Error>, FrameView) {
    match f.store.factory {
        None => (Err(Error::NotAuthorized), f),
        Some(factory) => {
            let g = f.act(ActionView::RequireAuth(factory));
            match f.store.raffle {
                None => (Err(Error::NotInitialized), g),
                Some(raffle) => if raffle.status !is Cancelled && raffle.status !is Claimed
                    && raffle.status !is Failed {
                    (Err(Error::InvalidStatus), g)
                } else {
                    (Ok(()), g.with_store(wiped(f.store, indexed)))
                },
            }
        },
    }
}

/// Takes sold tickets, their refunds and their hashes out of the tables.
fn wipe_tickets(
    tickets: &mut HashMap<u32, Ticket>,
    refunded: &mut HashSet<u32>,
    commit_entries: &mut HashMap<u32, CommitRevealEntry>,
    tickets_sold: u32,
)
    ensures
        final(tickets)@ == old(tickets)@.remove_keys(sold_ids(tickets_sold)),
        final(refunded)@ == old(refunded)@.difference(sold_ids(tickets_sold)),
        final(commit_entries)@ == old(commit_entries)@.remove_keys(sold_ids(tickets_sold)),
{
    let mut id: u32 = 0;
    assert(old(tickets)@.remove_keys(sold_ids(0)) =~= old(tickets)@);
    assert(old(refunded)@.difference(sold_ids(0)) =~= old(refunded)@);
    assert(old(commit_entries)@.remove_keys(sold_ids(0)) =~= old(commit_entries)@);
    while id < tickets_sold
        invariant
            id <= tickets_sold,
            tickets@ == old(tickets)@.remove_keys(sold_ids(id)),
            refunded@ == old(refunded)@.difference(sold_ids(id)),
            commit_entries@ == old(commit_entries)@.remove_keys(sold_ids(id)),
        decreases tickets_sold - id,
    {
        id += 1;
        tickets.remove(&id);
        refunded.remove(&id);
        commit_entries.remove(&id);
        assert(tickets@ =~= old(tickets)@.remove_keys(sold_ids(id)));
        assert(refunded@ =~= old(refunded)@.difference(sold_ids(id)));
        assert(commit_entries@ =~= old(commit_entries)@.remove_keys(sold_ids(id)));
    }
}

/// Wipes a raffle out that has come to its end.
pub fn wipe(frame: &mut Frame, indexed: bool) -> (r: Result<(), Error>)
    ensures
        (r, final(frame)@) == wipe_outcome(old(frame)@, indexed),
{
    let factory = match frame.store.factory {
        Some(factory) => factory,
        None => return Err(Error::NotAuthorized),
    };
    frame.act(Action::RequireAuth(factory));
    let (status, tickets_sold) = match &frame.store.raffle {
        Some(raffle) => (raffle.status, raffle.tickets_sold),
        None => return Err(Error::NotInitialized),
    };
    if status != RaffleStatus::Cancelled && status != RaffleStatus::Claimed && status
        != RaffleStatus::Failed {
        return Err(Error::InvalidStatus);
    }
    wipe_tickets(
        &mut frame.store.tickets,
        &mut frame.store.refunded,
        &mut frame.store.commit_entries,
        tickets_sold,
    );
    frame.store.ticket_counts.remove_all(&frame.store.ticket_buyers);
    if indexed {
        frame.store.owner_tickets.remove_all(&frame.store.ticket_buyers);
        assert(lists_in(frame.store.owner_tickets@) =~= lists_in(
            old(frame).store.owner_tickets@,
        ).remove_keys(old(frame).store.ticket_buyers@.to_set()));
        frame.store.pending_admin_cancel = None;
    }
    frame.store.ticket_buyers = Vec::new();
    frame.store.raffle = None;
    frame.store.factory = None;
    frame.store.admin = None;
    frame.store.paused = false;
    frame.store.reentrancy_guard = false;
    frame.store.accumulated_fees = 0;
    frame.store.randomness_requested = false;
    frame.store.randomness_request_ledger = None;
    frame.store.randomness_request_id = None;
    frame.store.drawing_lock = false;
    frame.store.randomness_seed = None;
    frame.store.standing_admin = None;
    Ok(())
}

/// Wipes a raffle out, but for the index of owners and a scheduled cancellation.
pub fn wipe_storage(frame: &mut Frame) -> (r: Result<(), Error>)
    ensures
        (r, final(frame)@) == wipe_outcome(old(frame)@, false),
{
    wipe(frame, false)
}

/// About how many seconds ago the oracle was asked, at five seconds a ledger.
pub open spec fn seconds_since_request(store: StoreView, ledger: Ledger) -> int {
    let asked_at = match store.randomness_request_ledger {
        Some(sequence) => sequence,
        None => 0,
    };
    if ledger.sequence < asked_at {
        0
    } else {
        (ledger.sequence - asked_at) * 5
    }
}

/// Why the prize cannot be taken back in an emergency, if it cannot.
pub open spec fn emergency_refusal(store: StoreView, ledger: Ledger, caller: Address) -> Option<Error> {
    match store.raffle {
        None => Some(Error::NotInitialized),
        Some(raffle) => if !raffle.prize_deposited {
            Some(Error::PrizeNotDeposited)
        } else if !is_manager(store, caller) {
            Some(Error::NotAuthorized)
        } else if raffle.status is Finalized {
            if raffle.finalized_at is None || ledger.timestamp < raffle.finalized_at->0
                + EMERGENCY_WITHDRAW_DELAY_SECONDS {
                Some(Error::EmergencyTooEarly)
            } else {
                None
            }
        } else if raffle.status is Drawing {
            if raffle.no_deadline && seconds_since_request(store, ledger)
                < EMERGENCY_WITHDRAW_DELAY_SECONDS {
                Some(Error::EmergencyTooEarly)
            } else if !raffle.no_deadline && ledger.timestamp < raffle.end_time
                + EMERGENCY_WITHDRAW_DELAY_SECONDS {
                Some(Error::EmergencyTooEarly)
            } else {
                None
            }
        } else {
            Some(Error::InvalidStatus)
        },
    }
}

/// Whether the times that an emergency is judged by can be computed.
pub open spec fn emergency_times_fit(store: StoreView, caller: Address) -> bool {
    match store.raffle {
        None => true,
        Some(raffle) => raffle.prize_deposited && is_manager(store, caller) ==> {
            &&& raffle.status is Finalized && raffle.finalized_at is Some
                ==> raffle.finalized_at->0 + EMERGENCY_WITHDRAW_DELAY_SECONDS <= u64::MAX
            &&& raffle.status is Drawing && !raffle.no_deadline ==> raffle.end_time
                + EMERGENCY_WITHDRAW_DELAY_SECONDS <= u64::MAX
        },
    }
}

/// What taking the prize back in an emergency comes to; `in_prize_token` says
/// whether it goes by the token of the prize or by that of the tickets.
pub open spec fn emergency_outcome(f: FrameView, caller: Address, in_prize_token: bool) -> (
    Result<(), Error>,
    FrameView,
) {
    let g = f.act(ActionView::RequireAuth(caller));
    let refusal = emergency_refusal(f.store, f.ledger, caller);
    if refusal is Some {
        (Err(refusal->0), g)
    } else {
        let raffle = f.store.raffle->0;
        let off = called_off(f.store);
        let token = if in_prize_token {
            raffle.prize_token
        } else {
            raffle.payment_token
        };
        (
            Ok(()),
            g.with_store(
                off.with_raffle(RaffleView { prize_deposited: false, ..off.raffle->0 }),
            ).act(
                ActionView::Transfer(
                    Payment {
                        token,
                        from: f.ledger.contract,
                        to: raffle.creator,
                        amount: raffle.prize_amount,
                    },
                ),
            ).act(
                ActionView::Publish(
                    Event::EmergencyWithdrawn {
                        withdrawn_by: caller,
                        to: raffle.creator,
                        amount: raffle.prize_amount,
                        token,
                        timestamp: f.ledger.timestamp,
                    },
                ),
            ),
        )
    }
}

/// Finds why the prize cannot be taken back in an emergency.
fn check_emergency(store: &Store, ledger: &Ledger, caller: Address) -> (r: Option<Error>)
    requires
        emergency_times_fit(store@, caller),
    ensures
        r == emergency_refusal(store@, *ledger, caller),
{
    let raffle = match &store.raffle {
        Some(raffle) => raffle,
        None => return Some(Error::NotInitialized),
    };
    if !raffle.prize_deposited {
        return Some(Error::PrizeNotDeposited);
    }
    if !manages(store, raffle.creator, caller) {
        return Some(Error::NotAuthorized);
    }
    let now: u64 = ledger.timestamp;
    match raffle.status {
        RaffleStatus::Finalized => match raffle.finalized_at {
            Some(finalized_at) => {
                if now < finalized_at + EMERGENCY_WITHDRAW_DELAY_SECONDS {
                    return Some(Error::EmergencyTooEarly);
                }
            },
            None => return Some(Error::EmergencyTooEarly),
        },
        RaffleStatus::Drawing => {
            if raffle.no_deadline {
                let asked_at: u32 = match store.randomness_request_ledger {
                    Some(sequence) => sequence,
                    None => 0,
                };
                let waited: u64 = ledger.sequence.saturating_sub(asked_at) as u64 * 5;
                if waited < EMERGENCY_WITHDRAW_DELAY_SECONDS {
                    return Some(Error::EmergencyTooEarly);
                }
            } else if now < raffle.end_time + EMERGENCY_WITHDRAW_DELAY_SECONDS {
                return Some(Error::EmergencyTooEarly);
            }
        },
        _ => return Some(Error::InvalidStatus),
    }
    None
}

/// Gives the prize back to the creator where the raffle has not come to its end for
/// a long time, and calls the raffle off, with a draw in progress.
pub fn withdraw_in_emergency(frame: &mut Frame, caller: Address, in_prize_token: bool) -> (r: Result<
    (),
    Error,
>)
    requires
        emergency_times_fit(old(frame)@.store, caller),
    ensures
        (r, final(frame)@) == emergency_outcome(old(frame)@, caller, in_prize_token),
{
    frame.act(Action::RequireAuth(caller));
    match check_emergency(&frame.store, &frame.ledger, caller) {
        Some(e) => return Err(e),
        None => {},
    }
    let (creator, amount, token) = match &frame.store.raffle {
        Some(raffle) => (
            raffle.creator,
            raffle.prize_amount,
            if in_prize_token {
                raffle.prize_token
            } else {
                raffle.payment_token
            },
        ),
        None => return Err(Error::NotInitialized),
    };
    call_off(&mut frame.store);
    frame.store.raffle_mut().prize_deposited = false;
    let from = frame.ledger.contract;
    let timestamp: u64 = frame.ledger.timestamp;
    frame.act(Action::Transfer(Payment { token, from, to: creator, amount }));
    frame.act(
        Action::Publish(
            Event::EmergencyWithdrawn {
                withdrawn_by: caller,
                to: creator,
                amount,
                token,
                timestamp,
            },
        ),
    );
    Ok(())
}

/// Gives the prize back to the creator in an emergency, in the token of the tickets.
pub fn emergency_withdraw(frame: &mut Frame, caller: Address) -> (r: Result<(), Error>)
    requires
        emergency_times_fit(old(frame)@.store, caller),
    ensures
        (r, final(frame)@) == emergency_outcome(old(frame)@, caller, false),
{
    withdraw_in_emergency(frame, caller, false)
}

} // verus!
