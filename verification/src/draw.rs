//! Drawing the winners.

use crate::action::{Action, ActionView, Event};
use crate::address::Address;
use crate::bytes::{big_endian, leading_u64};
use crate::error::Error;
use crate::helpers::{
    build_internal_seed_u64, check_drawing, choose_winners, drawing_refusal, finalized_frame,
    ledger_seed, record_winners, request_id_in, request_randomness, request_randomness_outcome,
    transition_to_drawing, transition_to_drawing_outcome, winners_refusal,
};
use crate::host::{sha256, sha256_of, xdr_of_proof_message};
use crate::randomness::build_vrf_proof_message;
use crate::store::{Frame, FrameView, Ledger, Store, StoreView};
use crate::types::{
    CancelReason, CommitRevealEntry, FailureReason, RaffleStatus, RaffleView, RandomnessSource,
    RandomnessType,
};
use crate::ORACLE_TIMEOUT_LEDGERS;
use soroban_sdk::Env;
use vstd::prelude::*;

verus! {

broadcast use vstd::std_specs::hash::group_hash_axioms;

/// The hashes that were committed for the tickets up to a number, one behind the
/// other in the order of the tickets.
pub open spec fn committed_hashes(entries: Map<u32, CommitRevealEntry>, tickets: u32) -> Seq<u8>
    decreases tickets,
{
    if tickets == 0 {
        Seq::empty()
    } else {
        let before = committed_hashes(entries, (tickets - 1) as u32);
        if entries.contains_key(tickets) {
            before + entries[tickets].hash@
        } else {
            before
        }
    }
}

/// The seed of a draw that needs no oracle: the digest of the committed hashes if
/// hashes were asked for and committed, else the ledger's seed.
pub open spec fn draw_seed(store: StoreView, ledger: Ledger) -> u64
    recommends
        store.raffle is Some,
{
    let hashes = committed_hashes(store.commit_entries, store.raffle->0.tickets_sold);
    if store.raffle->0.randomness_source is CommitReveal && hashes.len() > 0 {
        big_endian(sha256_of(hashes).take(8)) as u64
    } else {
        ledger_seed(ledger)
    }
}

/// Computes the seed of a draw that needs no oracle.
pub fn build_draw_seed(env: &Env, store: &Store, ledger: &Ledger) -> (r: u64)
    requires
        store.raffle is Some,
        store.raffle->0@.wf(),
    ensures
        r == draw_seed(store@, *ledger),
{
    let (source, tickets_sold) = match &store.raffle {
        Some(raffle) => (raffle.randomness_source, raffle.tickets_sold),
        None => (RandomnessSource::Internal, 0),
    };
    if source == RandomnessSource::CommitReveal {
        let mut combined: Vec<u8> = Vec::new();
        let mut ticket_id: u32 = 0;
        while ticket_id < tickets_sold
            invariant
                ticket_id <= tickets_sold <= 100_000,
                combined@ == committed_hashes(store@.commit_entries, ticket_id),
                combined@.len() <= 32 * ticket_id,
            decreases tickets_sold - ticket_id,
        {
            ticket_id += 1;
            let ghost before = combined@;
            match store.commit_entries.get(&ticket_id) {
                Some(entry) => {
                    let hash = entry.hash;
                    let mut i: usize = 0;
                    while i < 32
                        invariant
                            i <= 32,
                            combined@ == before + hash@.take(i as int),
                        decreases 32 - i,
                    {
                        combined.push(hash[i]);
                        assert(hash@.take(i + 1) =~= hash@.take(i as int).push(hash@[i as int]));
                        i += 1;
                    }
                    assert(hash@.take(32) =~= hash@);
                },
                None => {},
            }
        }
        if combined.len() > 0 {
            return leading_u64(&sha256(env, &combined));
        }
    }
    build_internal_seed_u64(env, ledger)
}

/// Whether the sale of tickets has come to its end.
pub open spec fn sale_is_over(raffle: RaffleView, now: u64) -> bool {
    (!raffle.no_deadline && now >= raffle.end_time) || raffle.tickets_sold >= raffle.max_tickets
}

/// Whether too few tickets were sold for a draw.
pub open spec fn too_few_sold(raffle: RaffleView) -> bool {
    raffle.tickets_sold == 0 || raffle.tickets_sold < raffle.min_tickets
}

/// The frame of a raffle that failed.
pub open spec fn failed_frame(f: FrameView) -> FrameView {
    let raffle = f.store.raffle->0;
    f.with_store(
        StoreView { raffle: Some(RaffleView { status: RaffleStatus::Failed, ..raffle }), ..f.store },
    ).act(
        ActionView::Publish(
            Event::RaffleFailed {
                creator: raffle.creator,
                reason: if raffle.tickets_sold == 0 {
                    FailureReason::ZeroTicketsSold
                } else {
                    FailureReason::MinTicketsNotMet
                },
                tickets_sold: raffle.tickets_sold,
                timestamp: f.ledger.timestamp,
            },
        ),
    )
}

/// The news that a draw has begun.
pub open spec fn draw_news(f: FrameView, caller: Address) -> ActionView {
    ActionView::Publish(
        Event::DrawTriggered {
            caller,
            total_tickets_sold: f.store.raffle->0.tickets_sold,
            timestamp: f.ledger.timestamp,
        },
    )
}

/// The frame once the oracle has been asked for randomness.
pub open spec fn oracle_asked(f: FrameView, caller: Address) -> FrameView {
    let raffle = f.store.raffle->0;
    request_randomness_outcome(f).1.act(draw_news(f, caller)).act(
        ActionView::Publish(
            Event::RandomnessRequested {
                oracle: match raffle.oracle_address {
                    Some(oracle) => oracle,
                    None => f.ledger.contract,
                },
                request_id: request_id_in(f.ledger),
                timestamp: f.ledger.timestamp,
            },
        ),
    )
}

/// Asks the oracle for randomness and makes it known.
pub fn ask_oracle(env: &Env, frame: &mut Frame, caller: Address)
    requires
        old(frame).store.raffle is Some,
        !old(frame).store.randomness_requested,
    ensures
        final(frame)@ == oracle_asked(old(frame)@, caller),
{
    let now: u64 = frame.ledger.timestamp;
    let (tickets_sold, oracle_address) = match &frame.store.raffle {
        Some(raffle) => (raffle.tickets_sold, raffle.oracle_address),
        None => (0, None),
    };
    let oracle = match oracle_address {
        Some(oracle) => oracle,
        None => frame.ledger.contract,
    };
    match request_randomness(env, frame) {
        Ok(request_id) => {
            frame.act(
                Action::Publish(
                    Event::DrawTriggered { caller, total_tickets_sold: tickets_sold, timestamp: now },
                ),
            );
            frame.act(
                Action::Publish(Event::RandomnessRequested { oracle, request_id, timestamp: now }),
            );
        },
        Err(_) => {},
    }
}

/// What ending the sale comes to; `resume` says whether a draw that was begun may
/// be taken up again.
pub open spec fn end_of_sale_outcome(f: FrameView, resume: bool) -> (Result<(), Error>, FrameView) {
    match f.store.raffle {
        None => (Err(Error::NotInitialized), f),
        Some(raffle) => {
            let g = f.act(ActionView::RequireAuth(raffle.creator));
            let resumed = resume && raffle.status is Drawing;
            let drawing = if resumed {
                g
            } else {
                transition_to_drawing_outcome(g, f.ledger.timestamp).1
            };
            let drawn = drawing.act(draw_news(drawing, raffle.creator));
            let seed = draw_seed(f.store, f.ledger);
            if raffle.status !is Active && raffle.status !is Drawing {
                (Err(Error::InvalidStatus), g)
            } else if raffle.status is Active && !sale_is_over(raffle, f.ledger.timestamp) {
                (Err(Error::InvalidStateTransition), g)
            } else if too_few_sold(raffle) {
                (Ok(()), failed_frame(g))
            } else if !resumed && drawing_refusal(f.store) is Some {
                (Err(drawing_refusal(f.store)->0), g)
            } else if raffle.randomness_source is External {
                if f.store.randomness_requested {
                    (Err(Error::RandomnessAlreadyRequested), g)
                } else {
                    (Ok(()), oracle_asked(drawing, raffle.creator))
                }
            } else if winners_refusal(f.store, seed) is Some {
                (Err(winners_refusal(f.store, seed)->0), g)
            } else {
                (Ok(()), finalized_frame(drawn, seed, RandomnessType::Prng))
            }
        },
    }
}

/// Ends the sale: the raffle fails if too few tickets were sold, and else its
/// winners are drawn, or its oracle is asked for a seed.
pub fn end_sale(env: &Env, frame: &mut Frame, resume: bool) -> (r: Result<(), Error>)
    requires
        old(frame).store.raffle is Some ==> old(frame).store.raffle->0@.wf(),
    ensures
        (r, final(frame)@) == end_of_sale_outcome(old(frame)@, resume),
{
    let ghost f = frame@;
    let now: u64 = frame.ledger.timestamp;
    let (creator, status, tickets_sold, min_tickets, source, over) = match &frame.store.raffle {
        Some(raffle) => (
            raffle.creator,
            raffle.status,
            raffle.tickets_sold,
            raffle.min_tickets,
            raffle.randomness_source,
            (!raffle.no_deadline && now >= raffle.end_time) || raffle.tickets_sold
                >= raffle.max_tickets,
        ),
        None => return Err(Error::NotInitialized),
    };
    frame.act(Action::RequireAuth(creator));
    if status != RaffleStatus::Active && status != RaffleStatus::Drawing {
        return Err(Error::InvalidStatus);
    }
    if status == RaffleStatus::Active && !over {
        return Err(Error::InvalidStateTransition);
    }
    if tickets_sold == 0 || tickets_sold < min_tickets {
        let reason = if tickets_sold == 0 {
            FailureReason::ZeroTicketsSold
        } else {
            FailureReason::MinTicketsNotMet
        };
        frame.store.raffle_mut().status = RaffleStatus::Failed;
        frame.act(
            Action::Publish(Event::RaffleFailed { creator, reason, tickets_sold, timestamp: now }),
        );
        return Ok(());
    }
    let resumed: bool = resume && status == RaffleStatus::Drawing;
    if !resumed {
        match check_drawing(&frame.store) {
            Some(e) => return Err(e),
            None => {},
        }
    }
    if source == RandomnessSource::External {
        if frame.store.randomness_requested {
            return Err(Error::RandomnessAlreadyRequested);
        }
        if !resumed {
            let _begun = transition_to_drawing(frame, now);
        }
        ask_oracle(env, frame, creator);
        return Ok(());
    }
    let seed: u64 = build_draw_seed(env, &frame.store, &frame.ledger);
    match choose_winners(env, &frame.store, seed) {
        Ok((tickets, winners)) => {
            if !resumed {
                let _begun = transition_to_drawing(frame, now);
            }
            frame.act(
                Action::Publish(
                    Event::DrawTriggered {
                        caller: creator,
                        total_tickets_sold: tickets_sold,
                        timestamp: now,
                    },
                ),
            );
            record_winners(frame, seed, RandomnessType::Prng, tickets, winners);
            Ok(())
        },
        Err(e) => Err(e),
    }
}

/// What [`finalize_raffle`] comes to.
pub open spec fn finalize_raffle_outcome(f: FrameView) -> (Result<(), Error>, FrameView) {
    if f.store.drawing_lock {
        (Err(Error::DrawingAlreadyInProgress), f)
    } else {
        end_of_sale_outcome(f, false)
    }
}

/// Ends the sale, unless a draw is in progress.
pub fn finalize_raffle(env: &Env, frame: &mut Frame) -> (r: Result<(), Error>)
    requires
        old(frame).store.raffle is Some ==> old(frame).store.raffle->0@.wf(),
    ensures
        (r, final(frame)@) == finalize_raffle_outcome(old(frame)@),
{
    if frame.store.drawing_lock {
        return Err(Error::DrawingAlreadyInProgress);
    }
    end_sale(env, frame, false)
}

/// Why an oracle's seed is not taken, if it is not.
pub open spec fn seed_refusal(store: StoreView, request_id: u64) -> Option<Error>
    recommends
        store.raffle is Some,
{
    if store.raffle->0.status !is Drawing {
        Some(Error::InvalidStateTransition)
    } else if !store.randomness_requested || store.randomness_request_id is None {
        Some(Error::NoRandomnessRequest)
    } else if store.randomness_request_id != Some(request_id) {
        Some(Error::InvalidParameters)
    } else {
        None
    }
}

/// What [`provide_randomness`] comes to.
pub open spec fn provide_randomness_outcome(
    f: FrameView,
    random_seed: u64,
    public_key: Seq<u8>,
    proof: Seq<u8>,
    request_id: u64,
) -> (Result<Address, Error>, FrameView) {
    if !f.store.drawing_lock {
        (Err(Error::DrawingAlreadyComplete), f)
    } else if f.store.raffle is None {
        (Err(Error::NotInitialized), f)
    } else if f.store.raffle->0.oracle_address is None {
        (Err(Error::OracleNotSet), f)
    } else {
        let oracle = f.store.raffle->0.oracle_address->0;
        let g = f.act(ActionView::RequireAuth(oracle));
        let checked = g.act(
            ActionView::CheckProof {
                public_key,
                message: xdr_of_proof_message(f.ledger.contract, request_id, random_seed),
                proof,
            },
        );
        let received = checked.act(
            ActionView::Publish(
                Event::RandomnessReceived {
                    oracle,
                    seed: random_seed,
                    request_id,
                    timestamp: f.ledger.timestamp,
                },
            ),
        );
        if seed_refusal(f.store, request_id) is Some {
            (Err(seed_refusal(f.store, request_id)->0), g)
        } else if winners_refusal(f.store, random_seed) is Some {
            (Err(winners_refusal(f.store, random_seed)->0), checked)
        } else {
            (Ok(f.ledger.contract), finalized_frame(received, random_seed, RandomnessType::Vrf))
        }
    }
}

/// Takes the seed of the oracle and draws the winners from it. The oracle has to
/// confirm the call, and its signature has to bind the seed to the request that
/// is open.
pub fn provide_randomness(
    env: &Env,
    frame: &mut Frame,
    random_seed: u64,
    public_key: [u8; 32],
    proof: [u8; 64],
    request_id: u64,
) -> (r: Result<Address, Error>)
    requires
        old(frame).store.raffle is Some ==> old(frame).store.raffle->0@.wf(),
    ensures
        (r, final(frame)@) == provide_randomness_outcome(
            old(frame)@,
            random_seed,
            public_key@,
            proof@,
            request_id,
        ),
{
    if !frame.store.drawing_lock {
        return Err(Error::DrawingAlreadyComplete);
    }
    let (oracle_address, status) = match &frame.store.raffle {
        Some(raffle) => (raffle.oracle_address, raffle.status),
        None => return Err(Error::NotInitialized),
    };
    let oracle = match oracle_address {
        Some(oracle) => oracle,
        None => return Err(Error::OracleNotSet),
    };
    frame.act(Action::RequireAuth(oracle));
    if status != RaffleStatus::Drawing {
        return Err(Error::InvalidStateTransition);
    }
    if !frame.store.randomness_requested {
        return Err(Error::NoRandomnessRequest);
    }
    match frame.store.randomness_request_id {
        Some(stored) => {
            if stored != request_id {
                return Err(Error::InvalidParameters);
            }
        },
        None => return Err(Error::NoRandomnessRequest),
    }
    let contract = frame.ledger.contract;
    let now: u64 = frame.ledger.timestamp;
    let message = build_vrf_proof_message(env, &contract, request_id, random_seed);
    frame.act(Action::CheckProof { public_key, message, proof });
    match choose_winners(env, &frame.store, random_seed) {
        Ok((tickets, winners)) => {
            frame.act(
                Action::Publish(
                    Event::RandomnessReceived {
                        oracle,
                        seed: random_seed,
                        request_id,
                        timestamp: now,
                    },
                ),
            );
            record_winners(frame, random_seed, RandomnessType::Vrf, tickets, winners);
            Ok(contract)
        },
        Err(e) => Err(e),
    }
}

/// The ledger of the open request, or zero.
pub open spec fn request_ledger_of(store: StoreView) -> u32 {
    match store.randomness_request_ledger {
        Some(sequence) => sequence,
        None => 0,
    }
}

/// Why the oracle's absence cannot be made up for, whatever the ledger, if it
/// cannot.
pub open spec fn fallback_refusal(store: StoreView, caller: Address) -> Option<Error> {
    match store.raffle {
        None => Some(Error::NotInitialized),
        Some(raffle) => if store.admin is None || (caller != raffle.creator && Some(caller)
            != store.admin) {
            Some(Error::NotAuthorized)
        } else if raffle.status !is Drawing {
            Some(Error::InvalidStateTransition)
        } else if !store.randomness_requested {
            Some(Error::NoRandomnessRequest)
        } else {
            None
        },
    }
}

/// A memory in which no draw is in progress.
pub open spec fn draw_called_off(store: StoreView) -> StoreView {
    StoreView {
        randomness_requested: false,
        randomness_request_id: None,
        randomness_request_ledger: None,
        drawing_lock: false,
        ..store
    }
}

/// The news that a raffle was called off.
pub open spec fn cancel_news(f: FrameView, reason: CancelReason) -> ActionView {
    let raffle = f.store.raffle->0;
    ActionView::Publish(
        Event::RaffleCancelled {
            creator: raffle.creator,
            reason,
            tickets_sold: raffle.tickets_sold,
            prize_refunded: raffle.prize_deposited,
            timestamp: f.ledger.timestamp,
        },
    )
}

/// A memory whose raffle is called off.
pub open spec fn raffle_called_off(store: StoreView) -> StoreView {
    StoreView {
        raffle: Some(RaffleView { status: RaffleStatus::Cancelled, ..store.raffle->0 }),
        ..store
    }
}

/// A memory whose raffle is called off, and with it a draw in progress.
pub open spec fn called_off(store: StoreView) -> StoreView {
    if store.raffle->0.status is Drawing {
        draw_called_off(raffle_called_off(store))
    } else {
        raffle_called_off(store)
    }
}

/// Calls the raffle off, and with it a draw in progress: the lock is freed and an open
/// request is given up.
pub fn call_off(store: &mut Store)
    requires
        old(store).raffle is Some,
    ensures
        final(store)@ == called_off(old(store)@),
        final(store).raffle is Some,
{
    let raffle = store.raffle_mut();
    let drawing: bool = raffle.status == RaffleStatus::Drawing;
    raffle.status = RaffleStatus::Cancelled;
    if drawing {
        store.randomness_requested = false;
        store.randomness_request_id = None;
        store.randomness_request_ledger = None;
        store.drawing_lock = false;
    }
}

/// What making up for an absent oracle comes to.
pub open spec fn fallback_outcome(f: FrameView, caller: Address, do_refund: bool) -> (
    Result<(), Error>,
    FrameView,
) {
    let g = f.act(ActionView::RequireAuth(caller));
    let request_ledger = request_ledger_of(f.store);
    let seed = ledger_seed(f.ledger);
    let triggered = g.act(
        ActionView::Publish(
            Event::RandomnessFallbackTriggered {
                triggered_by: caller,
                seed_used: seed,
                request_ledger,
                fallback_ledger: f.ledger.sequence,
                timestamp: f.ledger.timestamp,
            },
        ),
    );
    if fallback_refusal(f.store, caller) is Some {
        (Err(fallback_refusal(f.store, caller)->0), g)
    } else if f.ledger.sequence < request_ledger + ORACLE_TIMEOUT_LEDGERS {
        (Err(Error::FallbackTooEarly), g)
    } else if do_refund {
        (
            Ok(()),
            g.with_store(called_off(f.store)).act(cancel_news(f, CancelReason::OracleTimeout)),
        )
    } else if winners_refusal(f.store, seed) is Some {
        (Err(winners_refusal(f.store, seed)->0), g)
    } else {
        (Ok(()), finalized_frame(triggered, seed, RandomnessType::Fallback))
    }
}

/// Makes up for an absent oracle: calls the raffle off, or draws the winners from
/// the ledger's seed.
pub fn fall_back(env: &Env, frame: &mut Frame, caller: Address, do_refund: bool) -> (r: Result<(), Error>)
    requires
        old(frame).store.raffle is Some ==> old(frame).store.raffle->0@.wf(),
        fallback_refusal(old(frame)@.store, caller) is None ==> request_ledger_of(old(frame)@.store)
            + ORACLE_TIMEOUT_LEDGERS <= u32::MAX,
    ensures
        (r, final(frame)@) == fallback_outcome(old(frame)@, caller, do_refund),
{
    frame.act(Action::RequireAuth(caller));
    let (creator, status, tickets_sold, prize_deposited) = match &frame.store.raffle {
        Some(raffle) => (
            raffle.creator,
            raffle.status,
            raffle.tickets_sold,
            raffle.prize_deposited,
        ),
        None => return Err(Error::NotInitialized),
    };
    let admin = match frame.store.admin {
        Some(admin) => admin,
        None => return Err(Error::NotAuthorized),
    };
    if caller != creator && caller != admin {
        return Err(Error::NotAuthorized);
    }
    if status != RaffleStatus::Drawing {
        return Err(Error::InvalidStateTransition);
    }
    if !frame.store.randomness_requested {
        return Err(Error::NoRandomnessRequest);
    }
    let request_ledger: u32 = match frame.store.randomness_request_ledger {
        Some(sequence) => sequence,
        None => 0,
    };
    if frame.ledger.sequence < request_ledger + ORACLE_TIMEOUT_LEDGERS {
        return Err(Error::FallbackTooEarly);
    }
    let now: u64 = frame.ledger.timestamp;
    if do_refund {
        call_off(&mut frame.store);
        frame.act(
            Action::Publish(
                Event::RaffleCancelled {
                    creator,
                    reason: CancelReason::OracleTimeout,
                    tickets_sold,
                    prize_refunded: prize_deposited,
                    timestamp: now,
                },
            ),
        );
        return Ok(());
    }
    let seed: u64 = build_internal_seed_u64(env, &frame.ledger);
    match choose_winners(env, &frame.store, seed) {
        Ok((tickets, winners)) => {
            let fallback_ledger: u32 = frame.ledger.sequence;
            frame.act(
                Action::Publish(
                    Event::RandomnessFallbackTriggered {
                        triggered_by: caller,
                        seed_used: seed,
                        request_ledger,
                        fallback_ledger,
                        timestamp: now,
                    },
                ),
            );
            record_winners(frame, seed, RandomnessType::Fallback, tickets, winners);
            Ok(())
        },
        Err(e) => Err(e),
    }
}

/// What [`trigger_randomness_fallback`] comes to.
pub open spec fn trigger_fallback_outcome(f: FrameView, caller: Address, do_refund: bool) -> (
    Result<(), Error>,
    FrameView,
) {
    if !f.store.drawing_lock {
        (Err(Error::DrawingAlreadyComplete), f)
    } else {
        fallback_outcome(f, caller, do_refund)
    }
}

/// Makes up for an absent oracle while a draw is in progress.
pub fn trigger_randomness_fallback(env: &Env, frame: &mut Frame, caller: Address, do_refund: bool) -> (r:
    Result<(), Error>)
    requires
        old(frame).store.raffle is Some ==> old(frame).store.raffle->0@.wf(),
        old(frame).store.drawing_lock && fallback_refusal(old(frame)@.store, caller) is None
            ==> request_ledger_of(old(frame)@.store) + ORACLE_TIMEOUT_LEDGERS <= u32::MAX,
    ensures
        (r, final(frame)@) == trigger_fallback_outcome(old(frame)@, caller, do_refund),
{
    if !frame.store.drawing_lock {
        return Err(Error::DrawingAlreadyComplete);
    }
    fall_back(env, frame, caller, do_refund)
}

} // verus!
