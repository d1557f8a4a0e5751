//! The calls of the contract.
//!
//! Creating a raffle and paying its prize in stands in [`crate::setup`], paying out
//! and paying back in [`crate::payout`].

use crate::address::Address;
use crate::admin;
use crate::admin::{
    cancel_outcome, emergency_outcome, emergency_times_fit, pause_outcome,
    pause_sales_outcome, rescue_outcome, set_admin_outcome, set_protocol_fee_bp_outcome, set_swap_deadline_outcome,
    update_oracle_address_outcome, wipe_outcome, withdraw_fees_outcome,
};
use crate::draw;
use crate::draw::{
    end_of_sale_outcome, fallback_refusal, provide_randomness_outcome, request_ledger_of,
    trigger_fallback_outcome,
};
use crate::error::Error;
use crate::helpers::{copy_list, read_raffle};
use crate::store::{Frame, Store, StoreView};
use crate::tickets;
use crate::tickets::{sale_outcome, submit_commit_outcome};
use crate::types::{CancelReason, FairnessData, FairnessDataView, Raffle};
use crate::ORACLE_TIMEOUT_LEDGERS;
use soroban_sdk::Env;
use vstd::prelude::*;

verus! {

/// The raffle contract.
pub struct Contract;

/// What anybody needs to check the draw of a raffle.
pub open spec fn fairness_data_of(store: StoreView) -> Result<FairnessDataView, Error> {
    if store.randomness_seed is None {
        Err(Error::InvalidStatus)
    } else if store.raffle is None {
        Err(Error::NotInitialized)
    } else {
        let record = store.randomness_seed->0;
        Ok(
            FairnessDataView {
                seed: record.seed,
                randomness_source: record.randomness_source,
                ticket_ids: Seq::new(store.raffle->0.tickets_sold as nat, |i: int| (i + 1) as u32),
                winning_ticket_indices: record.winning_ticket_indices,
                draw_timestamp: record.draw_timestamp,
                draw_sequence: record.draw_sequence,
            },
        )
    }
}

impl Contract {
    /// Sells tickets, the first ones at the early bird price, and begins the draw with
    /// the last one.
    pub fn buy_tickets(env: &Env, frame: &mut Frame, buyer: Address, quantity: u32) -> (r: Result<
        u32,
        Error,
    >)
        requires
            old(frame)@.store.wf(),
        ensures
            (r, final(frame)@) == sale_outcome(old(frame)@, buyer, quantity, true),
    {
        tickets::sell(env, frame, buyer, quantity, true)
    }

    /// Records the hash that the owner of a ticket contributes to the seed.
    pub fn submit_commit(frame: &mut Frame, ticket_id: u32, hash: [u8; 32]) -> (r: Result<(), Error>)
        ensures
            (r, final(frame)@) == submit_commit_outcome(old(frame)@, ticket_id, hash),
    {
        tickets::submit_commit(frame, ticket_id, hash)
    }

    /// Ends the sale, or takes a draw up again that was begun: the raffle fails if too
    /// few tickets were sold, and else its winners are drawn, or its oracle is asked
    /// for a seed.
    pub fn finalize_raffle(env: &Env, frame: &mut Frame) -> (r: Result<(), Error>)
        requires
            old(frame)@.store.raffle is Some ==> old(frame)@.store.raffle->0.wf(),
        ensures
            (r, final(frame)@) == end_of_sale_outcome(old(frame)@, true),
    {
        draw::end_sale(env, frame, true)
    }

    /// Takes the seed of the oracle and draws the winners from it.
    pub fn provide_randomness(
        env: &Env,
        frame: &mut Frame,
        random_seed: u64,
        public_key: [u8; 32],
        proof: [u8; 64],
        request_id: u64,
    ) -> (r: Result<Address, Error>)
        requires
            old(frame)@.store.raffle is Some ==> old(frame)@.store.raffle->0.wf(),
        ensures
            (r, final(frame)@) == provide_randomness_outcome(
                old(frame)@,
                random_seed,
                public_key@,
                proof@,
                request_id,
            ),
    {
        draw::provide_randomness(env, frame, random_seed, public_key, proof, request_id)
    }

    /// Makes up for an absent oracle while a draw is in progress: calls the raffle
    /// off, or draws the winners from the ledger's seed.
    pub fn trigger_randomness_fallback(env: &Env, frame: &mut Frame, caller: Address, do_refund: bool) -> (r:
        Result<(), Error>)
        requires
            old(frame)@.store.raffle is Some ==> old(frame)@.store.raffle->0.wf(),
            old(frame)@.store.drawing_lock && fallback_refusal(old(frame)@.store, caller) is None
                ==> request_ledger_of(old(frame)@.store) + ORACLE_TIMEOUT_LEDGERS <= u32::MAX,
        ensures
            (r, final(frame)@) == trigger_fallback_outcome(old(frame)@, caller, do_refund),
    {
        draw::trigger_randomness_fallback(env, frame, caller, do_refund)
    }

    /// Pays fees out, once the winners are known.
    pub fn withdraw_fees(frame: &mut Frame, recipient: Address, amount: i128) -> (r: Result<(), Error>)
        ensures
            (r, final(frame)@) == withdraw_fees_outcome(old(frame)@, recipient, amount),
    {
        admin::withdraw_fees(frame, recipient, amount)
    }

    /// Returns the fees that have not been paid out.
    pub fn get_accumulated_fees(store: &Store) -> (r: i128)
        ensures
            r == store@.accumulated_fees,
    {
        store.accumulated_fees
    }

    /// Calls a raffle off, and a draw in progress with it. A cancellation by the
    /// administrator is only scheduled.
    pub fn cancel_raffle(frame: &mut Frame, reason: CancelReason) -> (r: Result<(), Error>)
        ensures
            (r, final(frame)@) == cancel_outcome(old(frame)@, reason),
    {
        admin::cancel_raffle(frame, reason)
    }

    /// Returns the time from which a scheduled cancellation can be carried out.
    pub fn get_pending_cancel(store: &Store) -> (r: Option<u64>)
        ensures
            r == store@.pending_admin_cancel,
    {
        store.pending_admin_cancel
    }

    /// Gives the prize back to the creator where the raffle has not come to its end
    /// for a long time, and calls the raffle off, with a draw in progress.
    pub fn emergency_withdraw(frame: &mut Frame, caller: Address) -> (r: Result<(), Error>)
        requires
            emergency_times_fit(old(frame)@.store, caller),
        ensures
            (r, final(frame)@) == emergency_outcome(old(frame)@, caller, true),
    {
        admin::withdraw_in_emergency(frame, caller, true)
    }

    /// Returns the raffle.
    pub fn get_raffle(store: &Store) -> (r: Result<&Raffle, Error>)
        ensures
            r == match store.raffle {
                Some(raffle) => Ok::<&Raffle, Error>(&raffle),
                None => Err(Error::NotInitialized),
            },
    {
        read_raffle(store)
    }

    /// Returns what anybody needs to check the draw.
    pub fn get_fairness_data(store: &Store) -> (r: Result<FairnessData, Error>)
        ensures
            match r {
                Ok(data) => fairness_data_of(store@) == Ok::<FairnessDataView, Error>(data@),
                Err(e) => fairness_data_of(store@) == Err::<FairnessDataView, Error>(e),
            },
    {
        let record = match &store.randomness_seed {
            Some(record) => record,
            None => return Err(Error::InvalidStatus),
        };
        let count: u32 = match &store.raffle {
            Some(raffle) => raffle.tickets_sold,
            None => return Err(Error::NotInitialized),
        };
        let mut ticket_ids: Vec<u32> = Vec::new();
        let mut i: u32 = 0;
        while i < count
            invariant
                i <= count,
                ticket_ids@ == Seq::new(i as nat, |k: int| (k + 1) as u32),
            decreases count - i,
        {
            i += 1;
            ticket_ids.push(i);
            assert(ticket_ids@ =~= Seq::new(i as nat, |k: int| (k + 1) as u32));
        }
        let data = FairnessData {
            seed: record.seed,
            randomness_source: record.randomness_source,
            ticket_ids,
            winning_ticket_indices: copy_list(&record.winning_ticket_indices),
            draw_timestamp: record.draw_timestamp,
            draw_sequence: record.draw_sequence,
        };
        assert(data@.ticket_ids =~= fairness_data_of(store@)->Ok_0.ticket_ids);
        Ok(data)
    }

    /// Returns the numbers of the tickets that somebody has bought.
    pub fn get_my_tickets(store: &Store, owner: Address) -> (r: Vec<u32>)
        ensures
            r@ == store@.tickets_of(owner),
    {
        match store.owner_tickets.get(owner) {
            Some(ids) => copy_list(ids),
            None => Vec::new(),
        }
    }

    /// Wipes a raffle out that has come to its end.
    pub fn wipe_storage(frame: &mut Frame) -> (r: Result<(), Error>)
        ensures
            (r, final(frame)@) == wipe_outcome(old(frame)@, true),
    {
        admin::wipe(frame, true)
    }

    /// Pauses the contract.
    pub fn pause(frame: &mut Frame) -> (r: Result<(), Error>)
        ensures
            (r, final(frame)@) == pause_outcome(old(frame)@, true),
    {
        admin::pause(frame)
    }

    /// Takes a pause of the contract back.
    pub fn unpause(frame: &mut Frame) -> (r: Result<(), Error>)
        ensures
            (r, final(frame)@) == pause_outcome(old(frame)@, false),
    {
        admin::unpause(frame)
    }

    /// Returns whether the contract is paused.
    pub fn is_paused(store: &Store) -> (r: bool)
        ensures
            r == store@.paused,
    {
        store.paused
    }

    /// Names a new standing administrator; `exists_on_ledger` says whether the ledger
    /// knows its address.
    pub fn set_admin(frame: &mut Frame, new_admin: Address, exists_on_ledger: bool) -> (r: Result<
        (),
        Error,
    >)
        ensures
            (r, final(frame)@) == set_admin_outcome(old(frame)@, new_admin, exists_on_ledger),
    {
        admin::set_admin(frame, new_admin, exists_on_ledger)
    }

    /// Pauses the sale of tickets.
    pub fn pause_ticket_sales(frame: &mut Frame, caller: Address) -> (r: Result<(), Error>)
        ensures
            (r, final(frame)@) == pause_sales_outcome(old(frame)@, caller, true),
    {
        admin::pause_ticket_sales(frame, caller)
    }

    /// Takes a pause of the sale of tickets back.
    pub fn resume_ticket_sales(frame: &mut Frame, caller: Address) -> (r: Result<(), Error>)
        ensures
            (r, final(frame)@) == pause_sales_outcome(old(frame)@, caller, false),
    {
        admin::resume_ticket_sales(frame, caller)
    }

    /// Returns whether the sale of tickets is paused.
    pub fn is_ticket_sales_paused(store: &Store) -> (r: bool)
        ensures
            r == (store@.raffle is Some && store@.raffle->0.ticket_sales_paused),
    {
        match &store.raffle {
            Some(raffle) => raffle.ticket_sales_paused,
            None => false,
        }
    }

    /// Takes stray tokens out, but neither those of the tickets nor those of the
    /// prize while a prize is held.
    pub fn rescue_tokens(frame: &mut Frame, token: Address, recipient: Address, amount: i128) -> (r: Result<
        (),
        Error,
    >)
        ensures
            (r, final(frame)@) == rescue_outcome(old(frame)@, token, recipient, amount, true),
    {
        admin::rescue(frame, token, recipient, amount, true)
    }

    /// Gives a raffle another oracle.
    pub fn update_oracle_address(frame: &mut Frame, new_oracle: Address) -> (r: Result<(), Error>)
        ensures
            (r, final(frame)@) == update_oracle_address_outcome(old(frame)@, new_oracle),
    {
        admin::update_oracle_address(frame, new_oracle)
    }

    /// Sets the protocol's fee, as long as no ticket is sold.
    pub fn set_protocol_fee_bp(frame: &mut Frame, new_fee_bp: u32) -> (r: Result<(), Error>)
        ensures
            (r, final(frame)@) == set_protocol_fee_bp_outcome(old(frame)@, new_fee_bp),
    {
        admin::set_protocol_fee_bp(frame, new_fee_bp)
    }

    /// Sets the time that a swap may take, as long as no ticket is sold.
    pub fn set_swap_deadline(frame: &mut Frame, new_deadline_seconds: u64) -> (r: Result<(), Error>)
        ensures
            (r, final(frame)@) == set_swap_deadline_outcome(old(frame)@, new_deadline_seconds),
    {
        admin::set_swap_deadline(frame, new_deadline_seconds)
    }
}

} // verus!
