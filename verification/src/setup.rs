//! Creating a raffle and paying its prize in.

use crate::action::{Action, ActionView, Event, Payment, RaffleCreated};
use crate::address::Address;
use crate::contract::Contract;
use crate::error::Error;
use crate::helpers::{copy_list, lemma_sum_of_bounds, require_not_paused, validate_token_address};
use crate::randomness::{check_digest, valid_digest};
use crate::store::{Frame, FrameView, StoreView};
use crate::types::{
    sum_of, Raffle, RaffleConfig, RaffleConfigView, RaffleStatus, RaffleView, RandomnessSource,
};
use crate::{
    MAX_CLAIM_LOCKUP_SECONDS, MAX_DESCRIPTION_LENGTH, MAX_PRIZES, MAX_PRIZE_AMOUNT,
    MAX_SWAP_DEADLINE_SECONDS, MAX_TICKETS_LIMIT, MIN_TICKET_PRICE,
};
use vstd::prelude::*;

verus! {

/// Why a configuration is refused for its terms, if it is: its texts, times, numbers
/// of tickets and amounts, but for the shares of the prize.
pub open spec fn terms_refusal(config: RaffleConfigView, now: u64) -> Option<Error> {
    if config.description.len() > MAX_DESCRIPTION_LENGTH {
        Some(Error::InvalidParameters)
    } else if config.no_deadline && config.end_time != 0 {
        Some(Error::InvalidParameters)
    } else if !config.no_deadline && config.end_time <= now {
        Some(Error::InvalidParameters)
    } else if config.max_tickets == 0 || config.max_tickets > MAX_TICKETS_LIMIT {
        Some(Error::InvalidParameters)
    } else if config.max_tickets < config.min_tickets {
        Some(Error::InvalidTicketRange)
    } else if config.max_tickets_per_tx == 0 || config.max_tickets_per_tx > config.max_tickets {
        Some(Error::InvalidParameters)
    } else if config.ticket_price < MIN_TICKET_PRICE {
        Some(Error::InvalidParameters)
    } else if config.prize_amount < config.ticket_price || config.prize_amount > MAX_PRIZE_AMOUNT {
        Some(Error::InvalidParameters)
    } else if config.prizes.len() == 0 {
        Some(Error::InvalidParameters)
    } else if config.prizes.len() > MAX_PRIZES {
        Some(Error::TooManyPrizes)
    } else {
        None
    }
}

/// Whether the oracle in a configuration goes with the source of its randomness: an
/// external source needs one that is not the contract itself, and no other source
/// has one.
pub open spec fn oracle_fits(config: RaffleConfigView, contract: Address) -> bool {
    if config.randomness_source is External {
        config.oracle_address is Some && config.oracle_address != Some(contract)
    } else {
        config.oracle_address is None
    }
}

/// Whether the shares, the fee, the oracle and the metadata of a configuration are
/// acceptable.
pub open spec fn shares_fit(config: RaffleConfigView, contract: Address) -> bool {
    &&& sum_of(config.prizes) == 10000
    &&& config.protocol_fee_bp <= 10000
    &&& oracle_fits(config, contract)
    &&& valid_digest(config.metadata_hash) is Some
}

/// Whether the waiting times and the discount of a configuration are acceptable.
pub open spec fn extras_fit(config: RaffleConfigView) -> bool {
    &&& config.claim_lockup_seconds <= MAX_CLAIM_LOCKUP_SECONDS
    &&& config.swap_deadline_seconds <= MAX_SWAP_DEADLINE_SECONDS
    &&& config.early_bird_ticket_percentage <= 100
    &&& config.early_bird_ticket_percentage > 0 ==> config.early_bird_discount_bp <= 10000
}

/// The raffle that a configuration describes.
pub open spec fn new_raffle(creator: Address, config: RaffleConfigView) -> RaffleView {
    RaffleView {
        creator,
        description: config.description,
        end_time: config.end_time,
        no_deadline: config.no_deadline,
        max_tickets: config.max_tickets,
        max_tickets_per_tx: config.max_tickets_per_tx,
        min_tickets: config.min_tickets,
        allow_multiple: config.allow_multiple,
        ticket_price: config.ticket_price,
        payment_token: config.payment_token,
        prize_token: config.payment_token,
        prize_amount: config.prize_amount,
        prizes: config.prizes,
        tickets_sold: 0,
        status: RaffleStatus::PendingPrize,
        prize_deposited: false,
        winners: Seq::empty(),
        claimed_winners: Seq::empty(),
        randomness_source: config.randomness_source,
        oracle_address: config.oracle_address,
        protocol_fee_bp: config.protocol_fee_bp,
        treasury_address: config.treasury_address,
        swap_router: config.swap_router,
        tikka_token: config.tikka_token,
        finalized_at: None,
        claim_lockup_seconds: config.claim_lockup_seconds,
        swap_deadline_seconds: config.swap_deadline_seconds,
        ticket_sales_paused: false,
        early_bird_ticket_percentage: config.early_bird_ticket_percentage,
        early_bird_discount_bp: config.early_bird_discount_bp,
    }
}

/// The news that a raffle was created.
pub open spec fn creation_news(contract: Address, creator: Address, config: RaffleConfigView) -> ActionView {
    ActionView::PublishCreated {
        raffle_id: contract,
        creator,
        end_time: config.end_time,
        max_tickets: config.max_tickets,
        ticket_price: config.ticket_price,
        payment_token: config.payment_token,
        prize_amount: config.prize_amount,
        prizes: config.prizes,
        description: config.description,
        randomness_source: config.randomness_source,
        metadata_hash: config.metadata_hash,
    }
}

/// What [`Contract::init`] comes to.
pub open spec fn init_outcome(
    f: FrameView,
    factory: Address,
    admin: Address,
    creator: Address,
    config: RaffleConfigView,
) -> (Result<(), Error>, FrameView) {
    let terms = terms_refusal(config, f.ledger.timestamp);
    let resolved = config.with_defaults();
    let g = f.act(ActionView::CheckToken(config.payment_token));
    if f.store.raffle is Some {
        (Err(Error::AlreadyInitialized), f)
    } else if terms is Some {
        (Err(terms->0), f)
    } else if !shares_fit(config, f.ledger.contract) {
        (Err(Error::InvalidParameters), f)
    } else if !extras_fit(resolved) {
        (Err(Error::InvalidParameters), g)
    } else {
        (
            Ok(()),
            g.with_store(
                StoreView {
                    raffle: Some(new_raffle(creator, resolved)),
                    factory: Some(factory),
                    admin: Some(admin),
                    ..f.store
                },
            ).act(creation_news(f.ledger.contract, creator, resolved)),
        )
    }
}

/// Finds why a configuration is refused for its terms.
pub fn check_terms(config: &RaffleConfig, now: u64) -> (r: Option<Error>)
    ensures
        r == terms_refusal(config@, now),
{
    if config.description.len() > MAX_DESCRIPTION_LENGTH as usize {
        return Some(Error::InvalidParameters);
    }
    if config.no_deadline && config.end_time != 0 {
        return Some(Error::InvalidParameters);
    }
    if !config.no_deadline && config.end_time <= now {
        return Some(Error::InvalidParameters);
    }
    if config.end_time != 0 && config.end_time <= now {
        return Some(Error::InvalidEndTime);
    }
    if config.max_tickets == 0 || config.max_tickets > MAX_TICKETS_LIMIT {
        return Some(Error::InvalidParameters);
    }
    if config.max_tickets < config.min_tickets {
        return Some(Error::InvalidTicketRange);
    }
    if config.max_tickets_per_tx == 0 || config.max_tickets_per_tx > config.max_tickets {
        return Some(Error::InvalidParameters);
    }
    if config.ticket_price < MIN_TICKET_PRICE {
        return Some(Error::InvalidParameters);
    }
    if config.prize_amount < config.ticket_price {
        return Some(Error::InvalidParameters);
    }
    if config.prize_amount > MAX_PRIZE_AMOUNT {
        return Some(Error::InvalidParameters);
    }
    if config.prizes.len() == 0 {
        return Some(Error::InvalidParameters);
    }
    if config.prizes.len() > MAX_PRIZES as usize {
        return Some(Error::TooManyPrizes);
    }
    None
}

/// Adds shares up.
fn total_share(shares: &Vec<u32>) -> (r: u32)
    requires
        sum_of(shares@) <= u32::MAX,
    ensures
        r == sum_of(shares@),
{
    let mut total: u32 = 0;
    let mut i: usize = 0;
    while i < shares.len()
        invariant
            i <= shares@.len(),
            sum_of(shares@) <= u32::MAX,
            total == sum_of(shares@.take(i as int)),
        decreases shares@.len() - i,
    {
        proof {
            lemma_sum_of_bounds(shares@, i as int);
            assert(shares@.take(i + 1).drop_last() =~= shares@.take(i as int));
        }
        total += shares[i];
        i += 1;
    }
    assert(shares@.take(i as int) =~= shares@);
    total
}

/// Finds whether the shares, the fee, the oracle and the metadata of a configuration
/// are acceptable.
fn check_shares(config: &RaffleConfig, contract: Address) -> (r: bool)
    requires
        sum_of(config@.prizes) <= u32::MAX,
    ensures
        r == shares_fit(config@, contract),
{
    if total_share(&config.prizes) != 10000 {
        return false;
    }
    if config.protocol_fee_bp > 10000 {
        return false;
    }
    match config.oracle_address {
        Some(oracle) => {
            if config.randomness_source != RandomnessSource::External || oracle == contract {
                return false;
            }
        },
        None => {
            if config.randomness_source == RandomnessSource::External {
                return false;
            }
        },
    }
    check_digest(config.metadata_hash).is_some()
}

/// Finds whether the waiting times and the discount of a configuration are
/// acceptable.
fn check_extras(config: &RaffleConfig) -> (r: bool)
    ensures
        r == extras_fit(config@),
{
    config.claim_lockup_seconds <= MAX_CLAIM_LOCKUP_SECONDS && config.swap_deadline_seconds
        <= MAX_SWAP_DEADLINE_SECONDS && config.early_bird_ticket_percentage <= 100 && !(
    config.early_bird_ticket_percentage > 0 && config.early_bird_discount_bp > 10000)
}

/// Makes the raffle that a configuration describes.
fn make_raffle(creator: Address, config: &RaffleConfig) -> (r: Raffle)
    ensures
        r@ == new_raffle(creator, config@),
{
    Raffle {
        creator,
        description: copy_list(&config.description),
        end_time: config.end_time,
        no_deadline: config.no_deadline,
        max_tickets: config.max_tickets,
        max_tickets_per_tx: config.max_tickets_per_tx,
        min_tickets: config.min_tickets,
        allow_multiple: config.allow_multiple,
        ticket_price: config.ticket_price,
        payment_token: config.payment_token,
        prize_token: config.payment_token,
        prize_amount: config.prize_amount,
        prizes: copy_list(&config.prizes),
        tickets_sold: 0,
        status: RaffleStatus::PendingPrize,
        prize_deposited: false,
        winners: Vec::new(),
        claimed_winners: Vec::new(),
        randomness_source: config.randomness_source,
        oracle_address: config.oracle_address,
        protocol_fee_bp: config.protocol_fee_bp,
        treasury_address: config.treasury_address,
        swap_router: config.swap_router,
        tikka_token: config.tikka_token,
        finalized_at: None,
        claim_lockup_seconds: config.claim_lockup_seconds,
        swap_deadline_seconds: config.swap_deadline_seconds,
        ticket_sales_paused: false,
        early_bird_ticket_percentage: config.early_bird_ticket_percentage,
        early_bird_discount_bp: config.early_bird_discount_bp,
    }
}

/// What [`Contract::deposit_prize`] comes to.
pub open spec fn deposit_prize_outcome(f: FrameView) -> (Result<(), Error>, FrameView) {
    if f.store.paused {
        (Err(Error::ContractPaused), f)
    } else if f.store.raffle is None {
        (Err(Error::NotInitialized), f)
    } else {
        let raffle = f.store.raffle->0;
        let now = f.ledger.timestamp;
        let g = f.act(ActionView::RequireAuth(raffle.creator));
        if raffle.prize_deposited {
            (Err(Error::PrizeAlreadyDeposited), g)
        } else {
            (
                Ok(()),
                g.with_store(
                    f.store.with_raffle(
                        RaffleView {
                            prize_deposited: true,
                            status: RaffleStatus::Active,
                            ..raffle
                        },
                    ),
                ).act(
                    ActionView::TryTransfer(
                        Payment {
                            token: raffle.prize_token,
                            from: raffle.creator,
                            to: f.ledger.contract,
                            amount: raffle.prize_amount,
                        },
                    ),
                ).act(
                    ActionView::Publish(
                        Event::PrizeDeposited {
                            creator: raffle.creator,
                            amount: raffle.prize_amount,
                            token: raffle.payment_token,
                            timestamp: now,
                        },
                    ),
                ).act(
                    ActionView::Publish(
                        Event::RaffleStatusChanged {
                            old_status: raffle.status,
                            new_status: RaffleStatus::Active,
                            timestamp: now,
                        },
                    ),
                ),
            )
        }
    }
}

impl Contract {
    /// Creates the raffle of this contract. The shares of the tiers have to add up to
    /// the whole prize, and the prize is paid in the token of the tickets.
    pub fn init(
        frame: &mut Frame,
        factory: Address,
        admin: Address,
        creator: Address,
        config: RaffleConfig,
    ) -> (r: Result<(), Error>)
        requires
            old(frame).store.raffle is None && terms_refusal(
                config@,
                old(frame).ledger.timestamp,
            ) is None ==> sum_of(config@.prizes) <= u32::MAX,
        ensures
            (r, final(frame)@) == init_outcome(old(frame)@, factory, admin, creator, config@),
    {
        if frame.store.raffle.is_some() {
            return Err(Error::AlreadyInitialized);
        }
        match check_terms(&config, frame.ledger.timestamp) {
            Some(e) => return Err(e),
            None => {},
        }
        let contract = frame.ledger.contract;
        if !check_shares(&config, contract) {
            return Err(Error::InvalidParameters);
        }
        validate_token_address(frame, config.payment_token);
        let config = config.resolve_defaults();
        if !check_extras(&config) {
            return Err(Error::InvalidParameters);
        }
        let raffle = make_raffle(creator, &config);
        frame.store.raffle = Some(raffle);
        frame.store.factory = Some(factory);
        frame.store.admin = Some(admin);
        frame.act(
            Action::PublishCreated(
                RaffleCreated {
                    raffle_id: contract,
                    creator,
                    end_time: config.end_time,
                    max_tickets: config.max_tickets,
                    ticket_price: config.ticket_price,
                    payment_token: config.payment_token,
                    prize_amount: config.prize_amount,
                    prizes: config.prizes,
                    description: config.description,
                    randomness_source: config.randomness_source,
                    metadata_hash: config.metadata_hash,
                },
            ),
        );
        Ok(())
    }

    /// Has the creator pay the prize in, and opens the sale.
    pub fn deposit_prize(frame: &mut Frame) -> (r: Result<(), Error>)
        ensures
            (r, final(frame)@) == deposit_prize_outcome(old(frame)@),
    {
        match require_not_paused(&frame.store) {
            Ok(_) => {},
            Err(e) => return Err(e),
        }
        let (creator, deposited, old_status, prize_token, payment_token, amount) =
            match &frame.store.raffle {
            Some(raffle) => (
                raffle.creator,
                raffle.prize_deposited,
                raffle.status,
                raffle.prize_token,
                raffle.payment_token,
                raffle.prize_amount,
            ),
            None => return Err(Error::NotInitialized),
        };
        frame.act(Action::RequireAuth(creator));
        if deposited {
            return Err(Error::PrizeAlreadyDeposited);
        }
        let raffle = frame.store.raffle_mut();
        raffle.prize_deposited = true;
        raffle.status = RaffleStatus::Active;
        let contract = frame.ledger.contract;
        let timestamp: u64 = frame.ledger.timestamp;
        frame.act(
            Action::TryTransfer(
                Payment { token: prize_token, from: creator, to: contract, amount },
            ),
        );
        frame.act(
            Action::Publish(
                Event::PrizeDeposited { creator, amount, token: payment_token, timestamp },
            ),
        );
        frame.act(
            Action::Publish(
                Event::RaffleStatusChanged {
                    old_status,
                    new_status: RaffleStatus::Active,
                    timestamp,
                },
            ),
        );
        Ok(())
    }
}

} // verus!
